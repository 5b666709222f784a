//! When work goes out over the live connection.
//!
//! Every edit is written to the log first and offered a moment later, so a
//! run of keystrokes is one message. One batch is out at a time. A batch the
//! server never answers is given up on after a deadline, so silence cannot
//! stop the stream for the rest of the session, and it is complained about
//! once rather than on every tick. Times are milliseconds on a clock that
//! only goes forward, read by the caller.

use vstd::prelude::*;
use crate::changes::refused_message;
use crate::state::Working;
use crate::text::trim;
use crate::version::opt_view;

verus! {

/// How long an edit waits before it is offered: long enough that typing a
/// name is one message, short enough that somebody watching sees it happen.
pub const STREAM_AFTER_MILLIS: u64 = 250;

/// How long the local copy of a server plan waits before being rewritten.
pub const LOCAL_COPY_AFTER_MILLIS: u64 = 2000;

/// How many entries one streamed batch carries: the server refuses more than
/// a page at once, and what is left goes in the next batch.
pub const STREAM_BATCH: usize = 200;

/// How long to wait before offering work again after a refusal or silence.
pub const STREAM_RETRY_MILLIS: u64 = 5000;

/// How long a streamed batch may go unanswered before it is given up on.
pub const STREAM_ANSWER_SECONDS: u64 = 20;

/// The same deadline in milliseconds.
pub const STREAM_ANSWER_MILLIS: u64 = 20000;

/// The state of the outgoing side of the live connection.
#[derive(Debug, Clone, Copy, PartialEq, Eq, Structural)]
pub struct LiveStream {
    /// Whether the socket is open.
    pub connected: bool,
    /// Whether the server on the end of it takes work offered over it.
    pub stream_out: bool,
    /// When the batch that is out went, if one is.
    pub in_flight: Option<u64>,
    /// When waiting work is next due to go, if any is waiting.
    pub due: Option<u64>,
    /// How many changes of somebody else's are waiting to go in.
    pub held: usize,
    /// Whether the silence of the batch out has already been complained about.
    pub silence_told: bool,
}

pub open spec fn streams_out_spec(s: LiveStream) -> bool {
    s.connected && s.stream_out
}

/// Whether there is waiting work whose moment has come at `now`.
pub open spec fn due_spec(s: LiveStream, now: u64, unsent: bool) -> bool {
    &&& streams_out_spec(s)
    &&& s.in_flight is None
    &&& s.held == 0
    &&& s.due matches Some(d) && d <= now
    &&& unsent
}

/// Whether the batch out has gone unanswered past the deadline at `now`.
pub open spec fn unanswered_spec(s: LiveStream, now: u64) -> bool {
    s.in_flight matches Some(sent) && now >= sent && now - sent >= STREAM_ANSWER_MILLIS
}

/// Whether work a sync of the usual kind is moving, which the stream must
/// not move too.
pub open spec fn moving_work(working: Option<Working>) -> bool {
    working == Some(Working::Syncing) || working == Some(Working::Publishing) || working == Some(
        Working::Fetching,
    )
}

/// The stream after a batch of `unsent` changes is offered at `now`, and how
/// many go, when one can be.
pub open spec fn offered(
    s: LiveStream,
    working: Option<Working>,
    now: u64,
    unsent: usize,
    linked: bool,
) -> (LiveStream, Option<usize>) {
    if moving_work(working) || !due_spec(s, now, unsent > 0) || !linked {
        (s, None)
    } else {
        (
            LiveStream { in_flight: Some(now), due: None, ..s },
            Some(if unsent < STREAM_BATCH { unsent } else { STREAM_BATCH }),
        )
    }
}

/// The stream after a batch out is given up on at `now`, and whether that
/// is news to tell.
pub open spec fn given_up(s: LiveStream, now: u64) -> (LiveStream, bool) {
    if !unanswered_spec(s, now) {
        (s, false)
    } else {
        (
            LiveStream {
                in_flight: None,
                due: Some((now + STREAM_RETRY_MILLIS) as u64),
                silence_told: true,
                ..s
            },
            !s.silence_told,
        )
    }
}

/// The stream once the batch out has been answered, whatever the answer.
pub open spec fn answered(s: LiveStream) -> LiveStream {
    LiveStream { in_flight: None, silence_told: false, ..s }
}

pub open spec fn silence_text() -> Seq<char> {
    "The server has not answered work sent over the live connection for 20 seconds. That usually means it is older than this copy and does not understand it. Nothing has been lost: your work is still here and still waiting to go, and it goes when you save this plan or press Sync. Turning live editing off and on again re-checks the server."@
}

impl LiveStream {
    /// No connection, and nothing waiting.
    pub fn new() -> (r: Self)
        ensures
            !r.connected && !r.stream_out && r.in_flight is None && r.due is None && r.held == 0
                && !r.silence_told,
    {
        LiveStream {
            connected: false,
            stream_out: false,
            in_flight: None,
            due: None,
            held: 0,
            silence_told: false,
        }
    }

    /// Whether this copy's own work can go out on the socket: there is one,
    /// and the server understands work offered over it.
    pub fn streams_out(&self) -> (r: bool)
        ensures
            r == streams_out_spec(*self),
    {
        self.connected && self.stream_out
    }

    /// Whether there is waiting work whose moment has come. Nothing goes
    /// while a batch is out, or while somebody else's work waits to go in
    /// ahead of it.
    pub fn stream_due(&self, now: u64, unsent: bool) -> (r: bool)
        ensures
            r == due_spec(*self, now, unsent),
    {
        let due_now = match self.due {
            Some(d) => d <= now,
            None => false,
        };
        self.streams_out() && self.in_flight.is_none() && self.held == 0 && due_now && unsent
    }

    /// An entry has landed in the log at `now`: offer it after the pause,
    /// unless something is already waiting, whose moment stands.
    pub fn work_to_offer(&mut self, now: u64)
        requires
            now <= u64::MAX - STREAM_AFTER_MILLIS,
        ensures
            *final(self) == (match old(self).due {
                Some(_) => *old(self),
                None => LiveStream { due: Some((now + STREAM_AFTER_MILLIS) as u64), ..*old(self) },
            }),
    {
        if self.due.is_none() {
            self.due = Some(now + STREAM_AFTER_MILLIS);
        }
    }

    /// A save at `now`: over a socket that takes work, the waiting work goes
    /// at once. True when the usual sync has to carry it instead.
    pub fn after_save(&mut self, now: u64, linked: bool, unsent: bool) -> (sync: bool)
        ensures
            !linked || !unsent ==> !sync && *final(self) == *old(self),
            linked && unsent && streams_out_spec(*old(self)) ==> !sync && *final(self) == (
            LiveStream { due: Some(now), ..*old(self) }),
            linked && unsent && !streams_out_spec(*old(self)) ==> sync && *final(self) == *old(
                self,
            ),
    {
        if !linked || !unsent {
            return false;
        }
        if self.streams_out() {
            self.due = Some(now);
            return false;
        }
        true
    }

    /// Offer waiting work at `now`, `unsent` changes of it: how many go, or
    /// nothing when nothing can. Never while a sync of the usual kind moves
    /// the same work, and never more than a batch.
    pub fn start_offer(&mut self, working: Option<Working>, now: u64, unsent: usize, linked: bool) -> (r:
        Option<usize>)
        ensures
            (*final(self), r) == offered(*old(self), working, now, unsent, linked),
    {
        let moving = match working {
            Some(Working::Syncing) => true,
            Some(Working::Publishing) => true,
            Some(Working::Fetching) => true,
            _ => false,
        };
        if moving || !self.stream_due(now, unsent > 0) || !linked {
            return None;
        }
        self.in_flight = Some(now);
        self.due = None;
        Some(
            if unsent < STREAM_BATCH {
                unsent
            } else {
                STREAM_BATCH
            },
        )
    }

    /// The batch out has been answered, whatever the answer was: the socket
    /// is free, and a later silence is news again.
    pub fn batch_answered(&mut self)
        ensures
            *final(self) == answered(*old(self)),
    {
        self.in_flight = None;
        self.silence_told = false;
    }

    /// Whether the batch out has gone unanswered too long at `now`.
    pub fn stream_unanswered(&self, now: u64) -> (r: bool)
        ensures
            r == unanswered_spec(*self, now),
    {
        match self.in_flight {
            Some(sent) => now >= sent && now - sent >= STREAM_ANSWER_MILLIS,
            None => false,
        }
    }

    /// Give up at `now` on a batch nobody answered, and offer the work again
    /// after a pause. What to tell, the first time only: the message for the
    /// Collaborate page and the line for the status bar.
    pub fn gave_up_on_batch(&mut self, now: u64) -> (told: Option<(String, String)>)
        requires
            now <= u64::MAX - STREAM_RETRY_MILLIS,
        ensures
            *final(self) == given_up(*old(self), now).0,
            given_up(*old(self), now).1 ==> (told matches Some((m, s)) && m@ == silence_text() && s@
                == "The live connection is not answering"@),
            !given_up(*old(self), now).1 ==> told is None,
    {
        if !self.stream_unanswered(now) {
            return None;
        }
        self.in_flight = None;
        self.due = Some(now + STREAM_RETRY_MILLIS);
        if self.silence_told {
            return None;
        }
        self.silence_told = true;
        Some(
            (
                "The server has not answered work sent over the live connection for 20 seconds. That usually means it is older than this copy and does not understand it. Nothing has been lost: your work is still here and still waiting to go, and it goes when you save this plan or press Sync. Turning live editing off and on again re-checks the server.".to_owned(),
                "The live connection is not answering".to_owned(),
            ),
        )
    }

    /// Whether somebody else's work that was held back can go in: nobody is
    /// typing into a cell, and no push of this copy's own is out.
    pub fn held_work_due(&self, editing: bool, working: Option<Working>) -> (r: bool)
        ensures
            r == (self.held > 0 && !editing && working != Some(Working::Syncing)),
    {
        let pushing = match working {
            Some(Working::Syncing) => true,
            _ => false,
        };
        self.held > 0 && !editing && !pushing
    }
}


pub open spec fn watching_only_text() -> Seq<char> {
    "This server does not understand edits sent over the live connection, so it is older than this copy. You will see other people's work as it happens, and your own goes to the server when you save this plan or press Sync rather than as you type. Updating the server turns the rest of it on."@
}

impl LiveStream {
    /// The socket is up at `now`. `streams` is whether the server takes work
    /// over it, false only when it said it does not; `unsent` is whether this
    /// copy has work not yet sent.
    ///
    /// Nothing is in flight on a new connection, silence is news again, and
    /// whatever was not sent goes at once. Gives the status line, the message
    /// for a server that only lets this copy watch, and whether the usual
    /// sync has to carry the work instead.
    pub fn connected(&mut self, streams: bool, now: u64, unsent: bool) -> (said: (
        String,
        Option<String>,
        bool,
    ))
        ensures
            *final(self) == (LiveStream {
                connected: true,
                stream_out: streams,
                in_flight: None,
                due: Some(now),
                silence_told: false,
                ..*old(self)
            }),
            streams ==> said.0@ == "Live editing is on"@ && said.1 is None && !said.2,
            !streams ==> said.0@ == "Live editing is on, for watching only"@ && (said.1 matches Some(
                m,
            ) && m@ == watching_only_text()) && said.2 == unsent,
    {
        self.connected = true;
        self.stream_out = streams;
        self.in_flight = None;
        self.silence_told = false;
        self.due = Some(now);
        if streams {
            ("Live editing is on".to_owned(), None, false)
        } else {
            (
                "Live editing is on, for watching only".to_owned(),
                Some(
                    "This server does not understand edits sent over the live connection, so it is older than this copy. You will see other people's work as it happens, and your own goes to the server when you save this plan or press Sync rather than as you type. Updating the server turns the rest of it on.".to_owned(),
                ),
                unsent,
            )
        }
    }

    /// The socket could not be started: what the server said about taking
    /// work still stands until the next attempt, and nothing else changes.
    pub fn connect_failed(&mut self, streams: bool)
        ensures
            *final(self) == (LiveStream { stream_out: streams, ..*old(self) }),
    {
        self.stream_out = streams;
    }

    /// The socket is closed. What was in flight was never acknowledged, so it
    /// is still unsent work; nothing is due until a socket is back; what the
    /// last server understood says nothing about the next, so streaming is
    /// assumed again; and work held for later is dropped, since the cursor
    /// never moved past it and the next sync asks for it again.
    pub fn stopped(&mut self)
        ensures
            *final(self) == (LiveStream {
                connected: false,
                stream_out: true,
                in_flight: None,
                due: None,
                held: 0,
                silence_told: false,
            }),
    {
        self.connected = false;
        self.stream_out = true;
        self.in_flight = None;
        self.due = None;
        self.held = 0;
        self.silence_told = false;
    }
}

/// One message off the live socket. Where each other planner is and what
/// they are typing is the caller's bookkeeping and decides nothing here.
pub enum Arrival<C> {
    /// The session is open, at this head, with the handle this connection
    /// has on the server when the server gives one; a push hands it back so
    /// the server does not echo the push over this socket.
    Welcome { head: i64, connection: Option<u64> },
    /// What was missed while away, up to this head, in the log's order.
    Catchup { head: i64, changes: Vec<C> },
    /// One change somebody else made, at this seq.
    Change { seq: i64, change: C },
    /// The batch went in: the head, each local id taken with its seq, and
    /// whether the server would like a whole plan.
    Applied { head: i64, applied: Vec<(u64, i64)>, snapshot_wanted: bool },
    /// The batch was refused as behind; what it missed came back.
    Behind { head: i64, changes: Vec<C> },
    /// This copy claims a place past the server's head.
    Ahead { head: i64, cursor: i64 },
    /// The batch was refused, for this reason.
    Refused(String),
    /// The server's log was trimmed past this copy.
    Gap,
    /// Somebody, by this name, joined the plan.
    Joined { name: String },
    /// The planner with this subject left.
    Left { subject: String },
    /// The connection ended, for this reason.
    Closed(String),
}

/// What a batch of messages has gathered so far.
pub struct Arrivals<C> {
    /// The furthest point of the log the messages reached.
    pub cursor: Option<i64>,
    /// Their changes, in the log's order.
    pub incoming: Vec<C>,
    /// Why the connection ended, if it did.
    pub ended: Option<String>,
    /// Whether the log was trimmed past this copy.
    pub gap: bool,
    /// The server's head and this copy's cursor, when this copy is ahead.
    pub ahead: Option<(i64, i64)>,
    /// The connection handle the last welcome gave, when one came.
    pub connection: Option<Option<u64>>,
    /// What the status line says of the last planner to join, if one did.
    pub joined: Option<String>,
    /// Who left, in order.
    pub left: Vec<String>,
}

/// An [`Arrivals`] with its text taken as characters.
pub struct ArrivalsView<C> {
    pub cursor: Option<i64>,
    pub incoming: Seq<C>,
    pub ended: Option<Seq<char>>,
    pub gap: bool,
    pub ahead: Option<(i64, i64)>,
    pub connection: Option<Option<u64>>,
    pub joined: Option<Seq<char>>,
    pub left: Seq<Seq<char>>,
}

impl<C> View for Arrivals<C> {
    type V = ArrivalsView<C>;

    open spec fn view(&self) -> ArrivalsView<C> {
        ArrivalsView {
            cursor: self.cursor,
            incoming: self.incoming@,
            ended: opt_view(self.ended),
            gap: self.gap,
            ahead: self.ahead,
            connection: self.connection,
            joined: opt_view(self.joined),
            left: Seq::new(self.left@.len(), |i: int| self.left@[i]@),
        }
    }
}

/// The furthest point of the log after seeing `seen`.
pub open spec fn furthest_spec(cursor: Option<i64>, seen: i64) -> Option<i64> {
    match cursor {
        Some(c) => Some(if c > seen { c } else { seen }),
        None => Some(seen),
    }
}

/// What one message does to what the batch has gathered.
pub open spec fn gathered<C>(a: ArrivalsView<C>, m: Arrival<C>) -> ArrivalsView<C> {
    match m {
        Arrival::Welcome { head, connection } => ArrivalsView {
            cursor: furthest_spec(a.cursor, head),
            connection: Some(connection),
            ..a
        },
        Arrival::Catchup { head, changes } => ArrivalsView {
            cursor: furthest_spec(a.cursor, head),
            incoming: a.incoming + changes@,
            ..a
        },
        Arrival::Change { seq, change } => ArrivalsView {
            cursor: furthest_spec(a.cursor, seq),
            incoming: a.incoming.push(change),
            ..a
        },
        Arrival::Applied { .. } => a,
        Arrival::Behind { head, changes } => ArrivalsView {
            cursor: furthest_spec(a.cursor, head),
            incoming: a.incoming + changes@,
            ..a
        },
        Arrival::Ahead { head, cursor } => ArrivalsView { ahead: Some((head, cursor)), ..a },
        Arrival::Refused(_) => a,
        Arrival::Gap => ArrivalsView { gap: true, ..a },
        Arrival::Joined { name } => ArrivalsView { joined: Some(name@ + " joined this plan"@), ..a },
        Arrival::Left { subject } => ArrivalsView { left: a.left.push(subject@), ..a },
        Arrival::Closed(why) => ArrivalsView { ended: Some(why@), ..a },
    }
}

/// What one message does to the outgoing stream at `now`: any answer frees
/// the socket; a refusal as behind offers the work again at once, once their
/// work is in; a refusal offers it again after a pause.
pub open spec fn stream_after<C>(s: LiveStream, m: Arrival<C>, now: u64) -> LiveStream {
    match m {
        Arrival::Applied { .. } => answered(s),
        Arrival::Behind { .. } => LiveStream { due: Some(now), ..answered(s) },
        Arrival::Ahead { .. } => answered(s),
        Arrival::Refused(_) => LiveStream {
            due: Some((now + STREAM_RETRY_MILLIS) as u64),
            ..answered(s)
        },
        _ => s,
    }
}

/// What an acknowledgement asks of the caller: mark as sent up to the
/// highest local id taken, remember the head, and note whether a whole plan
/// is wanted; then offer again whatever is still unsent.
pub struct Acknowledged {
    pub mark_pushed: Option<u64>,
    pub reached: i64,
    pub snapshot_wanted: bool,
}

/// What the batch comes to, once every message is in.
pub enum Settled<C> {
    /// The two logs share numbers but not events: the socket goes and the
    /// question is put.
    Ahead { head: i64, cursor: i64 },
    /// Nothing is left to replay onto: the socket goes and a whole plan is
    /// offered, for this reason.
    Gap(String),
    /// Their changes wait: a push of this copy's own is out, and until its
    /// answer lands an echo of it cannot be told from somebody else's.
    Hold(Vec<C>),
    /// Their changes go in, reading the log as far as this.
    Apply(Vec<C>, Option<i64>),
    /// Nothing came in.
    Quiet,
}

pub open spec fn gap_live_text() -> Seq<char> {
    "The server's log has been trimmed past the point this copy had reached, so live editing has nothing to replay onto. Live editing has been turned off, and this copy needs a fresh whole plan."@
}

impl<C> Arrivals<C> {
    /// Nothing gathered yet.
    pub fn new() -> (r: Self)
        ensures
            r@.cursor is None,
            r@.incoming.len() == 0,
            r@.ended is None,
            !r@.gap,
            r@.ahead is None,
            r@.connection is None,
            r@.joined is None,
            r@.left.len() == 0,
    {
        Arrivals {
            cursor: None,
            incoming: Vec::new(),
            ended: None,
            gap: false,
            ahead: None,
            connection: None,
            joined: None,
            left: Vec::new(),
        }
    }

    /// Take one message in at `now`, in the order it came. Gives the
    /// acknowledgement an applied batch carries, and what to tell of a
    /// refusal that gave a reason.
    pub fn take(&mut self, stream: &mut LiveStream, message: Arrival<C>, now: u64) -> (r: (
        Option<Acknowledged>,
        Option<String>,
    ))
        requires
            now <= u64::MAX - STREAM_RETRY_MILLIS,
        ensures
            final(self)@ == gathered(old(self)@, message),
            *final(stream) == stream_after(*old(stream), message, now),
            match message {
                Arrival::Applied { head, applied, snapshot_wanted } => {
                    &&& r.0 matches Some(ack) && ack.reached == head && ack.snapshot_wanted
                        == snapshot_wanted
                    &&& (applied.len() == 0 ==> r.0->0.mark_pushed is None)
                    &&& (applied.len() > 0 ==> (r.0->0.mark_pushed matches Some(h) && (exists|i: int|
                        0 <= i < applied.len() && #[trigger] applied@[i].0 == h) && (forall|i: int|
                        0 <= i < applied.len() ==> #[trigger] applied@[i].0 <= h)))
                    &&& r.1 is None
                },
                Arrival::Refused(why) => {
                    &&& r.0 is None
                    &&& (trim(why@).len() == 0 ==> r.1 is None)
                    &&& (trim(why@).len() > 0 ==> (r.1 matches Some(m) && m@
                        == "The server would not take a change: "@ + why@
                        + ". It is still here and will be offered again."@))
                },
                _ => r.0 is None && r.1 is None,
            },
    {
        match message {
            Arrival::Welcome { head, connection } => {
                self.cursor = Some(crate::changes::furthest(self.cursor, head));
                self.connection = Some(connection);
                (None, None)
            },
            Arrival::Catchup { head, changes } => {
                self.cursor = Some(crate::changes::furthest(self.cursor, head));
                let mut changes = changes;
                self.incoming.append(&mut changes);
                (None, None)
            },
            Arrival::Change { seq, change } => {
                self.cursor = Some(crate::changes::furthest(self.cursor, seq));
                self.incoming.push(change);
                (None, None)
            },
            Arrival::Applied { head, applied, snapshot_wanted } => {
                stream.batch_answered();
                let mark = crate::changes::highest_acknowledged(&applied);
                (Some(Acknowledged { mark_pushed: mark, reached: head, snapshot_wanted }), None)
            },
            Arrival::Behind { head, changes } => {
                stream.batch_answered();
                self.cursor = Some(crate::changes::furthest(self.cursor, head));
                let mut changes = changes;
                self.incoming.append(&mut changes);
                stream.due = Some(now);
                (None, None)
            },
            Arrival::Ahead { head, cursor } => {
                stream.batch_answered();
                self.ahead = Some((head, cursor));
                (None, None)
            },
            Arrival::Refused(why) => {
                stream.batch_answered();
                stream.due = Some(now + STREAM_RETRY_MILLIS);
                (None, refused_message(why.as_str()))
            },
            Arrival::Gap => {
                self.gap = true;
                (None, None)
            },
            Arrival::Joined { name } => {
                let mut said = name;
                said.append(" joined this plan");
                self.joined = Some(said);
                (None, None)
            },
            Arrival::Left { subject } => {
                let ghost before = self@.left;
                self.left.push(subject);
                proof {
                    assert(self@.left =~= before.push(subject@));
                }
                (None, None)
            },
            Arrival::Closed(why) => {
                self.ended = Some(why);
                (None, None)
            },
        }
    }

    /// What the batch comes to, with `working` what the network is doing, and
    /// why to close the socket afterwards when the connection ended and
    /// nothing else closed it first.
    pub fn settle(self, working: Option<Working>) -> (r: (Settled<C>, Option<String>))
        ensures
            self@.ahead matches Some((head, cursor)) ==> (r.0 == (Settled::<C>::Ahead { head, cursor })
                && r.1 is None),
            self@.ahead is None && self@.gap ==> (r.0 matches Settled::Gap(why) && why@
                == gap_live_text() && r.1 is None),
            self@.ahead is None && !self@.gap ==> {
                &&& opt_view(r.1) == self@.ended
                &&& (self@.incoming.len() == 0 ==> r.0 is Quiet)
                &&& (self@.incoming.len() > 0 && working == Some(Working::Syncing) ==> (r.0 matches Settled::Hold(v)
                    && v@ == self@.incoming))
                &&& (self@.incoming.len() > 0 && working != Some(Working::Syncing) ==> (r.0 matches Settled::Apply(v, c)
                    && v@ == self@.incoming && c == self@.cursor))
            },
    {
        match self.ahead {
            Some((head, cursor)) => {
                return (Settled::Ahead { head, cursor }, None);
            },
            None => {},
        }
        if self.gap {
            return (
                Settled::Gap(
                    "The server's log has been trimmed past the point this copy had reached, so live editing has nothing to replay onto. Live editing has been turned off, and this copy needs a fresh whole plan.".to_owned(),
                ),
                None,
            );
        }
        let pushing = match working {
            Some(Working::Syncing) => true,
            _ => false,
        };
        let settled = if self.incoming.len() == 0 {
            Settled::Quiet
        } else if pushing {
            Settled::Hold(self.incoming)
        } else {
            Settled::Apply(self.incoming, self.cursor)
        };
        (settled, self.ended)
    }
}

impl LiveStream {
    /// After an acknowledgement has been marked, whatever did not fit in that
    /// batch goes in the next one, at once.
    pub fn offer_if_unsent(&mut self, now: u64, unsent: bool)
        ensures
            *final(self) == (if unsent {
                LiveStream { due: Some(now), ..*old(self) }
            } else {
                *old(self)
            }),
    {
        if unsent {
            self.due = Some(now);
        }
    }
}

/// When the local copy of a plan that lives on a server is next rewritten.
/// A moment rather than a flag, because it is a debounce: a run of edits
/// pushes it no later than the first of them asked, and the write happens
/// once it has passed.
#[derive(Debug, Clone, Copy, PartialEq, Eq, Structural)]
pub struct LocalCopy {
    /// Whether this plan keeps a local copy at all.
    pub kept: bool,
    /// When it is next due to be written, if it is out of date.
    pub due: Option<u64>,
}

impl LocalCopy {
    /// The plan on screen changed at `now`.
    pub fn touch(&mut self, now: u64)
        requires
            now <= u64::MAX - LOCAL_COPY_AFTER_MILLIS,
        ensures
            final(self).kept == old(self).kept,
            final(self).due == (if old(self).kept && old(self).due is None {
                Some((now + LOCAL_COPY_AFTER_MILLIS) as u64)
            } else {
                old(self).due
            }),
    {
        if !self.kept {
            return;
        }
        if self.due.is_none() {
            self.due = Some(now + LOCAL_COPY_AFTER_MILLIS);
        }
    }

    /// Whether the copy is out of date and its moment has come at `now`.
    pub fn is_due(&self, now: u64) -> (r: bool)
        ensures
            r == (self.kept && (self.due matches Some(d) && d <= now)),
    {
        self.kept && match self.due {
            Some(d) => d <= now,
            None => false,
        }
    }

    /// The copy is being written, so nothing is owed until the next change.
    pub fn written(&mut self)
        ensures
            final(self).kept == old(self).kept,
            final(self).due is None,
    {
        self.due = None;
    }
}

/// One batch at a time: once one is out, nothing more is offered until it is
/// answered or given up on, whatever the clock says.
pub proof fn one_batch_at_a_time(
    s: LiveStream,
    working: Option<Working>,
    now: u64,
    unsent: usize,
    linked: bool,
    later: u64,
    w2: Option<Working>,
    u2: usize,
)
    requires
        offered(s, working, now, unsent, linked).1 is Some,
    ensures
        offered(offered(s, working, now, unsent, linked).0, w2, later, u2, linked).1 is None,
        1 <= offered(s, working, now, unsent, linked).1.unwrap() <= STREAM_BATCH,
{
}

/// Silence is told once: a batch given up on is complained about, another
/// silent one after it is not, and once an answer has come a silent batch is
/// news again.
pub proof fn silence_is_told_once(s: LiveStream, t1: u64, sent: u64, t2: u64)
    requires
        unanswered_spec(s, t1),
        !s.silence_told,
        t1 <= u64::MAX - STREAM_RETRY_MILLIS,
        t2 <= u64::MAX - STREAM_RETRY_MILLIS,
        t2 >= sent,
        t2 - sent >= STREAM_ANSWER_MILLIS,
    ensures
        given_up(s, t1).1,
        !given_up(LiveStream { in_flight: Some(sent), ..given_up(s, t1).0 }, t2).1,
        given_up(LiveStream { in_flight: Some(sent), ..answered(given_up(s, t1).0) }, t2).1,
{
}

/// Giving up frees the socket, and the work goes again once the pause is
/// over, if nothing else stands in its way.
pub proof fn giving_up_lets_the_work_go_again(s: LiveStream, now: u64)
    requires
        unanswered_spec(s, now),
        now <= u64::MAX - STREAM_RETRY_MILLIS,
        streams_out_spec(s),
        s.held == 0,
    ensures
        given_up(s, now).0.in_flight is None,
        !due_spec(given_up(s, now).0, now, true),
        due_spec(given_up(s, now).0, (now + STREAM_RETRY_MILLIS) as u64, true),
{
}

} // verus!
