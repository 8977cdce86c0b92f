//! The client's reader loop: requests go out under serial numbers, responses
//! find their way back by them, and an idle connection is kept alive with
//! pings.

use crate::reconnect::ReaderExit;
use crate::text::{join3, text_of_option};
use vstd::prelude::*;

verus! {

/// How long a connection may be idle before a ping goes out, in milliseconds.
pub const PING_INTERVAL: u64 = 15_000;

/// How long nothing at all may arrive after a ping, in milliseconds.
pub const PONG_TIMEOUT: u64 = 10_000;

/// A request waiting for its response: its serial and who waits.
#[derive(Debug, Clone, Copy, PartialEq, Eq, Structural)]
pub struct Waiting {
    pub serial: u64,
    pub promise: u64,
}

/// Why the loop ends.
#[derive(Debug)]
pub enum ReaderEnd {
    /// Nothing arrived in time after a ping.
    TimedOut,
    /// A response that nobody asked for.
    UnknownSerial(u64),
    /// A response could not be read.
    Decode(String),
    /// A message of the server could not be processed.
    Unilateral(String),
    /// A request or a ping could not be sent.
    Send(String),
    /// Nobody uses the connection any more.
    ClientWasDestroyed,
}

/// What the waiting requests are told when the loop ends.
#[derive(Debug, Clone, Copy, PartialEq, Eq, Structural)]
pub enum FailReason {
    NoPong,
    UnknownSerial,
    Decode,
    Destroyed,
}

impl FailReason {
    pub open spec fn text(self, detail: Seq<char>) -> Seq<char> {
        match self {
            FailReason::NoPong => "connection timed out (no response to keepalive ping)"@,
            FailReason::UnknownSerial => "got serial "@ + detail
                + " without a corresponding promise"@,
            FailReason::Decode => "Error while decoding response pdu: "@ + detail,
            FailReason::Destroyed => "Client was destroyed"@,
        }
    }

    /// What the waiting requests are told; `detail` is the message or the error
    /// that the reason speaks of.
    pub fn message(self, detail: &str) -> (s: String)
        ensures
            s@ == self.text(detail@),
    {
        match self {
            FailReason::NoPong => "connection timed out (no response to keepalive ping)".to_owned(),
            FailReason::UnknownSerial => join3(
                "got serial ",
                detail,
                " without a corresponding promise",
            ),
            FailReason::Decode => {
                let mut s = "Error while decoding response pdu: ".to_owned();
                s.append(detail);
                s
            },
            FailReason::Destroyed => "Client was destroyed".to_owned(),
        }
    }
}

impl ReaderEnd {
    pub open spec fn text(&self, detail: Seq<char>) -> Seq<char> {
        match *self {
            ReaderEnd::TimedOut =>
                "connection timed out: no data received for 10s after keepalive ping"@,
            ReaderEnd::UnknownSerial(_) => FailReason::UnknownSerial.text(detail),
            ReaderEnd::Decode(_) => "Error while decoding response pdu"@,
            ReaderEnd::Unilateral(_) => "processing unilateral PDU from server"@,
            ReaderEnd::Send(e) => e@,
            ReaderEnd::ClientWasDestroyed => "Client was destroyed"@,
        }
    }

    /// What is said of it, apart from the error behind it; `detail` is the
    /// message that came unasked for.
    pub fn message(&self, detail: &str) -> (s: String)
        ensures
            s@ == self.text(detail@),
    {
        match self {
            ReaderEnd::TimedOut => {
                "connection timed out: no data received for 10s after keepalive ping".to_owned()
            },
            ReaderEnd::UnknownSerial(_) => FailReason::UnknownSerial.message(detail),
            ReaderEnd::Decode(_) => "Error while decoding response pdu".to_owned(),
            ReaderEnd::Unilateral(_) => "processing unilateral PDU from server".to_owned(),
            ReaderEnd::Send(e) => e.clone(),
            ReaderEnd::ClientWasDestroyed => "Client was destroyed".to_owned(),
        }
    }

    /// What an end means for taking the connection up again.
    pub open spec fn exit_kind(&self, eof: bool) -> ReaderExit {
        if self is ClientWasDestroyed {
            ReaderExit::Destroyed
        } else if eof {
            ReaderExit::Eof
        } else {
            ReaderExit::Failed
        }
    }

    /// How the loop ended, as far as taking the connection up again goes;
    /// `eof` says that the error stems from the other side having closed it.
    pub fn exit(&self, eof: bool) -> (r: ReaderExit)
        ensures
            r == (if self is ClientWasDestroyed {
                ReaderExit::Destroyed
            } else if eof {
                ReaderExit::Eof
            } else {
                ReaderExit::Failed
            }),
            r == self.exit_kind(eof),
    {
        match self {
            ReaderEnd::ClientWasDestroyed => ReaderExit::Destroyed,
            _ => if eof {
                ReaderExit::Eof
            } else {
                ReaderExit::Failed
            },
        }
    }
}

/// What comes in.
#[derive(Debug)]
pub enum ReaderEvent {
    /// The keepalive timer fired.
    KeepaliveTick,
    /// A request is to be sent for somebody who waits for the response.
    SendPdu { promise: u64 },
    /// There is something to read.
    Readable { now: u64 },
    /// The request channel is closed.
    Closed,
    /// A ping or request went out, at the given time.
    Sent { now: u64 },
    SendFailed(String),
    Decoded { serial: u64 },
    DecodeFailed(String),
    /// A message of the server was processed.
    Processed,
    ProcessFailed(String),
    /// A response was handed over, or nobody was there to take it.
    Delivered(bool),
}

/// What to do next.
#[derive(Debug)]
pub enum ReaderAction {
    /// Wait for a request, for something to read, or for the deadline.
    Wait { deadline: Option<u64> },
    SendPing { serial: u64 },
    SendRequest { serial: u64 },
    /// Read one message; no response has a serial of `max_serial` or more.
    Decode { max_serial: u64 },
    /// The message is from the server's own accord.
    ProcessUnilateral,
    Deliver { promise: u64 },
    /// Fail every waiting request for `reason`, then end.
    End { failed: Vec<u64>, reason: FailReason, end: ReaderEnd },
}

impl ReaderAction {
    pub open spec fn sending_text(&self, flushing: bool) -> Option<Seq<char>> {
        match *self {
            ReaderAction::SendPing { .. } => Some(
                if flushing {
                    "flushing keepalive ping"@
                } else {
                    "encoding keepalive ping"@
                },
            ),
            ReaderAction::SendRequest { .. } => Some(
                if flushing {
                    "flushing PDU to server"@
                } else {
                    "encoding a PDU to send to the server"@
                },
            ),
            _ => None,
        }
    }

    /// What is said to have been done when an action that sends failed; what is
    /// sent is written first and then flushed.
    pub fn sending_context(&self, flushing: bool) -> (s: Option<String>)
        ensures
            text_of_option(s) == self.sending_text(flushing),
    {
        match self {
            ReaderAction::SendPing { .. } => Some(
                if flushing {
                    "flushing keepalive ping".to_owned()
                } else {
                    "encoding keepalive ping".to_owned()
                },
            ),
            ReaderAction::SendRequest { .. } => Some(
                if flushing {
                    "flushing PDU to server".to_owned()
                } else {
                    "encoding a PDU to send to the server".to_owned()
                },
            ),
            _ => None,
        }
    }
}

/// Where the loop stands: what was asked for last.
#[derive(Debug, Clone, Copy, PartialEq, Eq, Structural)]
pub enum ReaderStage {
    Waiting,
    PingSending,
    RequestSending,
    Decoding,
    Processing,
    Delivering,
    Ended,
}

/// The state of the reader loop.
pub struct ReaderLoop {
    next_serial: u64,
    waiting: Vec<Waiting>,
    pings: Vec<u64>,
    awaiting_pong: bool,
    last_activity: u64,
    keepalive_enabled: bool,
    stage: ReaderStage,
}

/// The same, as mathematical values.
pub struct ReaderView {
    pub next_serial: u64,
    pub waiting: Seq<Waiting>,
    pub pings: Seq<u64>,
    pub awaiting_pong: bool,
    pub last_activity: u64,
    pub keepalive_enabled: bool,
    pub stage: ReaderStage,
}

/// What an action says.
pub enum ReaderActionView {
    Wait { deadline: Option<u64> },
    SendPing { serial: u64 },
    SendRequest { serial: u64 },
    Decode { max_serial: u64 },
    ProcessUnilateral,
    Deliver { promise: u64 },
    End { failed: Seq<u64>, reason: FailReason, end: ReaderEnd },
}

impl View for ReaderAction {
    type V = ReaderActionView;

    open spec fn view(&self) -> ReaderActionView {
        match *self {
            ReaderAction::Wait { deadline } => ReaderActionView::Wait { deadline },
            ReaderAction::SendPing { serial } => ReaderActionView::SendPing { serial },
            ReaderAction::SendRequest { serial } => ReaderActionView::SendRequest { serial },
            ReaderAction::Decode { max_serial } => ReaderActionView::Decode { max_serial },
            ReaderAction::ProcessUnilateral => ReaderActionView::ProcessUnilateral,
            ReaderAction::Deliver { promise } => ReaderActionView::Deliver { promise },
            ReaderAction::End { failed, reason, end } => ReaderActionView::End {
                failed: failed@,
                reason,
                end,
            },
        }
    }
}

pub open spec fn serials(w: Seq<Waiting>) -> Seq<u64> {
    w.map_values(|x: Waiting| x.serial)
}

pub open spec fn promises(w: Seq<Waiting>) -> Seq<u64> {
    w.map_values(|x: Waiting| x.promise)
}

pub open spec fn increasing(s: Seq<u64>) -> bool {
    forall|i: int, j: int| 0 <= i < j < s.len() ==> s[i] < s[j]
}

/// The place of the request with the given serial, if one waits.
pub open spec fn place_of(w: Seq<Waiting>, serial: u64) -> Option<int> {
    if serials(w).contains(serial) {
        Some(serials(w).index_of(serial))
    } else {
        None
    }
}

impl ReaderView {
    /// The loop of a connection that is there since `now`.
    pub open spec fn fresh(is_local: bool, now: u64) -> ReaderView {
        ReaderView {
            next_serial: 1,
            waiting: Seq::empty(),
            pings: Seq::empty(),
            awaiting_pong: false,
            last_activity: now,
            keepalive_enabled: !is_local,
            stage: ReaderStage::Waiting,
        }
    }

    /// Serials are handed out once, counting up from one: each outstanding one
    /// is below the next, and no ping shares one with a request.
    pub open spec fn wf(self) -> bool {
        &&& self.next_serial >= 1
        &&& increasing(serials(self.waiting))
        &&& increasing(self.pings)
        &&& forall|i: int|
            0 <= i < self.waiting.len() ==> 1 <= (#[trigger] self.waiting[i]).serial
                < self.next_serial
        &&& forall|i: int| 0 <= i < self.pings.len() ==> 1 <= #[trigger] self.pings[i]
            < self.next_serial
        &&& forall|i: int, j: int|
            0 <= i < self.waiting.len() && 0 <= j < self.pings.len() ==> (
            #[trigger] self.waiting[i]).serial != #[trigger] self.pings[j]
    }

    /// When the keepalive timer fires next.
    pub open spec fn deadline(self) -> Option<u64> {
        if self.keepalive_enabled {
            let budget = if self.awaiting_pong {
                PONG_TIMEOUT
            } else {
                PING_INTERVAL
            };
            Some(
                if self.last_activity + budget <= u64::MAX {
                    (self.last_activity + budget) as u64
                } else {
                    u64::MAX
                },
            )
        } else {
            None
        }
    }

    pub open spec fn at(self, stage: ReaderStage) -> ReaderView {
        ReaderView { stage, ..self }
    }

    /// Back to waiting.
    pub open spec fn wait(self) -> (ReaderView, ReaderActionView) {
        (
            self.at(ReaderStage::Waiting),
            ReaderActionView::Wait { deadline: self.deadline() },
        )
    }

    /// The loop ends: nobody is left waiting.
    pub open spec fn end(self, reason: FailReason, end: ReaderEnd) -> (
        ReaderView,
        ReaderActionView,
    ) {
        (
            ReaderView { waiting: Seq::empty(), stage: ReaderStage::Ended, ..self },
            ReaderActionView::End { failed: promises(self.waiting), reason, end },
        )
    }

    /// What a message with the given serial leads to. The answer to a ping also
    /// retires the pings before it, serial zero marks a message of the server's
    /// own accord, and any other serial has to be one that somebody waits for.
    pub open spec fn on_decoded(self, serial: u64) -> (ReaderView, ReaderActionView) {
        if self.pings.contains(serial) {
            (ReaderView {
                pings: self.pings.skip(self.pings.index_of(serial) + 1),
                ..self
            }).wait()
        } else if serial == 0 {
            (self.at(ReaderStage::Processing), ReaderActionView::ProcessUnilateral)
        } else {
            match place_of(self.waiting, serial) {
                Some(i) => (
                    ReaderView {
                        waiting: self.waiting.remove(i),
                        stage: ReaderStage::Delivering,
                        ..self
                    },
                    ReaderActionView::Deliver { promise: self.waiting[i].promise },
                ),
                None => self.end(FailReason::UnknownSerial, ReaderEnd::UnknownSerial(serial)),
            }
        }
    }

    /// The loop's next state and action.
    pub open spec fn next(self, event: ReaderEvent) -> (ReaderView, ReaderActionView) {
        let serial = self.next_serial;
        match event {
            ReaderEvent::KeepaliveTick => if self.awaiting_pong {
                self.end(FailReason::NoPong, ReaderEnd::TimedOut)
            } else {
                (
                    ReaderView {
                        next_serial: (serial + 1) as u64,
                        pings: self.pings.push(serial),
                        awaiting_pong: true,
                        stage: ReaderStage::PingSending,
                        ..self
                    },
                    ReaderActionView::SendPing { serial },
                )
            },
            ReaderEvent::SendPdu { promise } => (
                ReaderView {
                    next_serial: (serial + 1) as u64,
                    waiting: self.waiting.push(Waiting { serial, promise }),
                    stage: ReaderStage::RequestSending,
                    ..self
                },
                ReaderActionView::SendRequest { serial },
            ),
            ReaderEvent::Readable { now } => (
                ReaderView {
                    last_activity: now,
                    awaiting_pong: false,
                    stage: ReaderStage::Decoding,
                    ..self
                },
                ReaderActionView::Decode { max_serial: serial },
            ),
            ReaderEvent::Closed => self.end(
                FailReason::Destroyed,
                ReaderEnd::ClientWasDestroyed,
            ),
            ReaderEvent::Sent { now } => (ReaderView {
                last_activity: if self.stage is PingSending {
                    now
                } else {
                    self.last_activity
                },
                ..self
            }).wait(),
            ReaderEvent::SendFailed(e) => self.end(FailReason::Destroyed, ReaderEnd::Send(e)),
            ReaderEvent::Decoded { serial } => self.on_decoded(serial),
            ReaderEvent::DecodeFailed(e) => self.end(FailReason::Decode, ReaderEnd::Decode(e)),
            ReaderEvent::Processed => self.wait(),
            ReaderEvent::ProcessFailed(e) => self.end(
                FailReason::Destroyed,
                ReaderEnd::Unilateral(e),
            ),
            ReaderEvent::Delivered(taken) => if taken {
                self.wait()
            } else {
                self.end(FailReason::Destroyed, ReaderEnd::ClientWasDestroyed)
            },
        }
    }

    /// The events that can follow the last action.
    pub open spec fn expects(self, event: ReaderEvent) -> bool {
        match event {
            ReaderEvent::KeepaliveTick => self.stage is Waiting && self.keepalive_enabled,
            ReaderEvent::SendPdu { .. } => self.stage is Waiting,
            ReaderEvent::Readable { .. } => self.stage is Waiting,
            ReaderEvent::Closed => self.stage is Waiting,
            ReaderEvent::Sent { .. } => self.stage is PingSending || self.stage is RequestSending,
            ReaderEvent::SendFailed(_) => self.stage is PingSending
                || self.stage is RequestSending,
            ReaderEvent::Decoded { .. } => self.stage is Decoding,
            ReaderEvent::DecodeFailed(_) => self.stage is Decoding,
            ReaderEvent::Processed => self.stage is Processing,
            ReaderEvent::ProcessFailed(_) => self.stage is Processing,
            ReaderEvent::Delivered(_) => self.stage is Delivering,
        }
    }
}

impl View for ReaderLoop {
    type V = ReaderView;

    closed spec fn view(&self) -> ReaderView {
        ReaderView {
            next_serial: self.next_serial,
            waiting: self.waiting@,
            pings: self.pings@,
            awaiting_pong: self.awaiting_pong,
            last_activity: self.last_activity,
            keepalive_enabled: self.keepalive_enabled,
            stage: self.stage,
        }
    }
}

proof fn lemma_remove_keeps_order(w: Seq<Waiting>, i: int)
    requires
        increasing(serials(w)),
        0 <= i < w.len(),
    ensures
        increasing(serials(w.remove(i))),
{
    let r = serials(w.remove(i));
    assert forall|a: int, b: int| 0 <= a < b < r.len() implies r[a] < r[b] by {
        let x = if a < i {
            a
        } else {
            a + 1
        };
        let y = if b < i {
            b
        } else {
            b + 1
        };
        assert(r[a] == serials(w)[x]);
        assert(r[b] == serials(w)[y]);
    }
}

impl ReaderLoop {
    /// A loop for a connection that is there since `now`. A local connection is
    /// not kept alive.
    pub fn new(is_local: bool, now: u64) -> (r: (ReaderLoop, ReaderAction))
        ensures
            r.0@.wf(),
            r.0@ == ReaderView::fresh(is_local, now),
            r.1@ == (ReaderActionView::Wait { deadline: r.0@.deadline() }),
    {
        let l = ReaderLoop {
            next_serial: 1,
            waiting: Vec::new(),
            pings: Vec::new(),
            awaiting_pong: false,
            last_activity: now,
            keepalive_enabled: !is_local,
            stage: ReaderStage::Waiting,
        };
        let deadline = l.deadline();
        (l, ReaderAction::Wait { deadline })
    }

    /// Whether there is a serial left for another request or ping.
    pub fn has_serial(&self) -> (r: bool)
        ensures
            r == (self@.next_serial < u64::MAX),
    {
        self.next_serial < u64::MAX
    }

    fn deadline(&self) -> (d: Option<u64>)
        ensures
            d == self@.deadline(),
    {
        if self.keepalive_enabled {
            let budget: u64 = if self.awaiting_pong {
                PONG_TIMEOUT
            } else {
                PING_INTERVAL
            };
            Some(self.last_activity.saturating_add(budget))
        } else {
            None
        }
    }

    fn wait(&mut self) -> (action: ReaderAction)
        ensures
            (final(self)@, action@) == old(self)@.wait(),
    {
        self.stage = ReaderStage::Waiting;
        let deadline = self.deadline();
        ReaderAction::Wait { deadline }
    }

    fn end(&mut self, reason: FailReason, end: ReaderEnd) -> (action: ReaderAction)
        ensures
            (final(self)@, action@) == old(self)@.end(reason, end),
    {
        let mut failed: Vec<u64> = Vec::new();
        let mut i: usize = 0;
        while i < self.waiting.len()
            invariant
                i <= self.waiting.len(),
                *self == *old(self),
                failed@ == promises(self.waiting@.take(i as int)),
            decreases self.waiting.len() - i,
        {
            failed.push(self.waiting[i].promise);
            i = i + 1;
            assert(failed@ == promises(self.waiting@.take(i as int)));
        }
        assert(self.waiting@.take(i as int) == self.waiting@);
        self.waiting = Vec::new();
        self.stage = ReaderStage::Ended;
        assert(self@.waiting == Seq::<Waiting>::empty());
        ReaderAction::End { failed, reason, end }
    }

    /// How many pings the answer to `serial` retires.
    fn pings_answered(&self, serial: u64) -> (r: Option<usize>)
        requires
            self@.wf(),
        ensures
            match r {
                Some(n) => self@.pings.contains(serial) && n == self@.pings.index_of(serial) + 1 && n
                    <= self@.pings.len(),
                None => !self@.pings.contains(serial),
            },
    {
        let mut i: usize = 0;
        while i < self.pings.len()
            invariant
                i <= self.pings.len(),
                self@.wf(),
                forall|j: int| 0 <= j < i ==> self.pings@[j] != serial,
            decreases self.pings.len() - i,
        {
            if self.pings[i] == serial {
                proof {
                    let p = self@.pings;
                    assert(p[i as int] == serial);
                    let k = p.index_of(serial);
                    assert(0 <= k < p.len() && p[k] == serial);
                    assert(k == i);
                }
                return Some(i + 1);
            }
            i = i + 1;
        }
        None
    }

    fn waiting_place(&self, serial: u64) -> (r: Option<usize>)
        requires
            self@.wf(),
        ensures
            match r {
                Some(i) => place_of(self@.waiting, serial) == Some(i as int) && i
                    < self@.waiting.len() && self@.waiting[i as int].serial == serial,
                None => place_of(self@.waiting, serial) is None,
            },
    {
        let mut i: usize = 0;
        while i < self.waiting.len()
            invariant
                i <= self.waiting.len(),
                self@.wf(),
                forall|j: int| 0 <= j < i ==> (#[trigger] self.waiting@[j]).serial != serial,
            decreases self.waiting.len() - i,
        {
            if self.waiting[i].serial == serial {
                proof {
                    let s = serials(self@.waiting);
                    assert(s[i as int] == serial);
                    let k = s.index_of(serial);
                    assert(0 <= k < s.len() && s[k] == serial);
                    assert(k == i);
                }
                return Some(i);
            }
            i = i + 1;
        }
        assert(!serials(self@.waiting).contains(serial)) by {
            if serials(self@.waiting).contains(serial) {
                let k = serials(self@.waiting).index_of(serial);
                assert(self.waiting@[k].serial == serial);
            }
        }
        None
    }

    fn take_decoded(&mut self, serial: u64) -> (action: ReaderAction)
        requires
            old(self)@.wf(),
        ensures
            final(self)@.wf(),
            (final(self)@, action@) == old(self)@.on_decoded(serial),
    {
        if let Some(n) = self.pings_answered(serial) {
            let rest = self.pings.split_off(n);
            self.pings = rest;
            assert(self@.pings == old(self)@.pings.skip(n as int));
            return self.wait();
        }
        if serial == 0 {
            self.stage = ReaderStage::Processing;
            return ReaderAction::ProcessUnilateral;
        }
        match self.waiting_place(serial) {
            Some(i) => {
                proof {
                    lemma_remove_keeps_order(self@.waiting, i as int);
                }
                let w = self.waiting.remove(i);
                self.stage = ReaderStage::Delivering;
                ReaderAction::Deliver { promise: w.promise }
            },
            None => self.end(FailReason::UnknownSerial, ReaderEnd::UnknownSerial(serial)),
        }
    }

    /// Takes what happened and names what to do next.
    pub fn step(&mut self, event: ReaderEvent) -> (action: ReaderAction)
        requires
            old(self)@.wf(),
            old(self)@.expects(event),
            old(self)@.next_serial < u64::MAX,
        ensures
            final(self)@.wf(),
            (final(self)@, action@) == old(self)@.next(event),
    {
        match event {
            ReaderEvent::KeepaliveTick => {
                if self.awaiting_pong {
                    return self.end(FailReason::NoPong, ReaderEnd::TimedOut);
                }
                let serial: u64 = self.next_serial;
                self.next_serial = self.next_serial + 1;
                self.pings.push(serial);
                self.awaiting_pong = true;
                self.stage = ReaderStage::PingSending;
                ReaderAction::SendPing { serial }
            },
            ReaderEvent::SendPdu { promise } => {
                let serial: u64 = self.next_serial;
                self.next_serial = self.next_serial + 1;
                self.waiting.push(Waiting { serial, promise });
                self.stage = ReaderStage::RequestSending;
                proof {
                    let before = serials(old(self)@.waiting);
                    let after = serials(self@.waiting);
                    assert(after == before.push(serial));
                    assert forall|a: int, b: int| 0 <= a < b < after.len() implies after[a]
                        < after[b] by {
                        if b == before.len() {
                            assert(old(self)@.waiting[a].serial < serial);
                        }
                    }
                }
                ReaderAction::SendRequest { serial }
            },
            ReaderEvent::Readable { now } => {
                self.last_activity = now;
                self.awaiting_pong = false;
                self.stage = ReaderStage::Decoding;
                ReaderAction::Decode { max_serial: self.next_serial }
            },
            ReaderEvent::Closed => self.end(
                FailReason::Destroyed,
                ReaderEnd::ClientWasDestroyed,
            ),
            ReaderEvent::Sent { now } => {
                if self.stage == ReaderStage::PingSending {
                    self.last_activity = now;
                }
                self.wait()
            },
            ReaderEvent::SendFailed(e) => self.end(FailReason::Destroyed, ReaderEnd::Send(e)),
            ReaderEvent::Decoded { serial } => self.take_decoded(serial),
            ReaderEvent::DecodeFailed(e) => self.end(FailReason::Decode, ReaderEnd::Decode(e)),
            ReaderEvent::Processed => self.wait(),
            ReaderEvent::ProcessFailed(e) => self.end(
                FailReason::Destroyed,
                ReaderEnd::Unilateral(e),
            ),
            ReaderEvent::Delivered(taken) => if taken {
                self.wait()
            } else {
                self.end(FailReason::Destroyed, ReaderEnd::ClientWasDestroyed)
            },
        }
    }
}

/// A late answer to a ping does no harm: it ends nothing, every waiting request
/// keeps waiting, and exactly the pings up to it are retired.
pub proof fn late_pong_is_harmless(s: ReaderView, serial: u64)
    requires
        s.wf(),
        s.stage is Decoding,
        s.pings.contains(serial),
    ensures
        s.next(ReaderEvent::Decoded { serial }).1 is Wait,
        s.next(ReaderEvent::Decoded { serial }).0.waiting == s.waiting,
        forall|p: u64|
            #[trigger] s.next(ReaderEvent::Decoded { serial }).0.pings.contains(p) <==> (
            s.pings.contains(p) && p > serial),
{
    let k = s.pings.index_of(serial);
    let rest = s.next(ReaderEvent::Decoded { serial }).0.pings;
    assert(s.pings[k] == serial);
    assert(rest == s.pings.skip(k + 1));
    assert forall|p: u64| #[trigger] rest.contains(p) <==> (s.pings.contains(p) && p > serial) by {
        if rest.contains(p) {
            let j = rest.index_of(p);
            assert(rest[j] == s.pings[j + k + 1]);
        }
        if s.pings.contains(p) && p > serial {
            let j = s.pings.index_of(p);
            assert(s.pings[j] == p);
            assert(j > k);
            assert(rest[j - k - 1] == p);
        }
    }
}

/// Anything that arrives proves the connection alive: no ping is awaited any
/// more, and the next one is a full interval away.
pub proof fn any_data_is_liveness(s: ReaderView, now: u64, serial: u64)
    requires
        s.wf(),
        s.stage is Waiting,
        s.keepalive_enabled,
        now + PING_INTERVAL <= u64::MAX,
    ensures
        ({
            let read = s.next(ReaderEvent::Readable { now }).0;
            &&& !read.awaiting_pong
            &&& read.deadline() == Some((now + PING_INTERVAL) as u64)
            &&& s.pings.contains(serial) ==> read.next(ReaderEvent::Decoded { serial }).1
                == (ReaderActionView::Wait { deadline: Some((now + PING_INTERVAL) as u64) })
        }),
{
}

/// The connection is given up as dead only when a timer fires while a ping is
/// awaited, and a ping is awaited from the moment it is sent until anything
/// arrives: two expiries without data between them.
pub proof fn timing_out_takes_an_unanswered_ping(s: ReaderView, event: ReaderEvent)
    requires
        s.wf(),
        s.expects(event),
    ensures
        (s.next(event).1 matches ReaderActionView::End { end: ReaderEnd::TimedOut, .. })
            <==> event is KeepaliveTick && s.awaiting_pong,
        s.next(event).0.awaiting_pong && !s.awaiting_pong ==> s.next(event).1 is SendPing,
        event is Readable ==> !s.next(event).0.awaiting_pong,
        s.awaiting_pong && !(event is Readable) ==> s.next(event).0.awaiting_pong,
{
}

/// Nobody is answered twice and nobody is forgotten: each step answers the
/// waiting requests it removes, one on delivery and all of them at the end, and
/// adds at most the request it takes up.
pub proof fn every_request_is_answered_once(s: ReaderView, event: ReaderEvent)
    requires
        s.wf(),
        s.expects(event),
    ensures
        match s.next(event).1 {
            ReaderActionView::Deliver { promise } => exists|i: int|
                0 <= i < s.waiting.len() && (#[trigger] s.waiting[i]).promise == promise
                    && event == (ReaderEvent::Decoded { serial: s.waiting[i].serial })
                    && s.next(event).0.waiting == s.waiting.remove(i),
            ReaderActionView::End { failed, .. } => failed == promises(s.waiting)
                && s.next(event).0.waiting.len() == 0,
            ReaderActionView::SendRequest { serial } => event is SendPdu && s.next(event).0.waiting
                == s.waiting.push((Waiting { serial, promise: event->promise })),
            _ => s.next(event).0.waiting == s.waiting,
        },
{
    match s.next(event).1 {
        ReaderActionView::Deliver { promise } => {
            let serial = event->Decoded_serial;
            let i = serials(s.waiting).index_of(serial);
            assert(serials(s.waiting)[i] == serial);
            assert(s.waiting[i].serial == serial);
            assert(s.waiting[i].promise == promise);
        },
        _ => {},
    }
}

/// The loop after the first `n` events.
pub open spec fn state_at(s: ReaderView, events: Seq<ReaderEvent>, n: nat) -> ReaderView
    decreases n,
{
    if n == 0 {
        s
    } else {
        state_at(s, events, (n - 1) as nat).next(events[n - 1]).0
    }
}

/// What the loop does about the event at place `k`.
pub open spec fn action_at(s: ReaderView, events: Seq<ReaderEvent>, k: nat) -> ReaderActionView {
    state_at(s, events, k).next(events[k as int]).1
}

/// Whether the events can come one after the other, with serials to spare.
pub open spec fn is_run(s: ReaderView, events: Seq<ReaderEvent>) -> bool {
    forall|k: nat|
        k < events.len() ==> (#[trigger] state_at(s, events, k)).expects(events[k as int])
            && state_at(s, events, k).next_serial < u64::MAX
}

/// The serials under which requests and pings are sent over the first `n`
/// events, in the order of sending.
pub open spec fn sent_serials(s: ReaderView, events: Seq<ReaderEvent>, n: nat) -> Seq<u64>
    decreases n,
{
    if n == 0 {
        Seq::empty()
    } else {
        sent_serials(s, events, (n - 1) as nat) + match action_at(s, events, (n - 1) as nat) {
            ReaderActionView::SendPing { serial } => seq![serial],
            ReaderActionView::SendRequest { serial } => seq![serial],
            _ => Seq::empty(),
        }
    }
}

/// Whether the event at place `k` has a request sent under `serial`, for which
/// `promise` waits.
pub open spec fn sent_as(
    s: ReaderView,
    events: Seq<ReaderEvent>,
    k: nat,
    promise: u64,
    serial: u64,
) -> bool {
    events[k as int] == (ReaderEvent::SendPdu { promise }) && action_at(s, events, k) == (
    ReaderActionView::SendRequest { serial })
}

/// Whether the event at place `k` is the response with `serial`, and it is
/// handed to `promise`.
pub open spec fn answered_as(
    s: ReaderView,
    events: Seq<ReaderEvent>,
    k: nat,
    promise: u64,
    serial: u64,
) -> bool {
    events[k as int] == (ReaderEvent::Decoded { serial }) && action_at(s, events, k) == (
    ReaderActionView::Deliver { promise })
}

/// What is sent carries the serials one, two, three and so on in the order of
/// sending; none is used twice.
pub proof fn serials_count_up(is_local: bool, now: u64, events: Seq<ReaderEvent>, n: nat)
    requires
        is_run(ReaderView::fresh(is_local, now), events),
        n <= events.len(),
    ensures
        ({
            let s = ReaderView::fresh(is_local, now);
            let sent = sent_serials(s, events, n);
            &&& state_at(s, events, n).next_serial == sent.len() + 1
            &&& forall|i: int| 0 <= i < sent.len() ==> #[trigger] sent[i] == i + 1
        }),
    decreases n,
{
    let s = ReaderView::fresh(is_local, now);
    if n > 0 {
        let before = state_at(s, events, (n - 1) as nat);
        serials_count_up(is_local, now, events, (n - 1) as nat);
        assert(before.expects(events[n - 1]));
        let old_sent = sent_serials(s, events, (n - 1) as nat);
        let sent = sent_serials(s, events, n);
        assert forall|i: int| 0 <= i < sent.len() implies #[trigger] sent[i] == i + 1 by {
            if i < old_sent.len() {
                assert(sent[i] == old_sent[i]);
            }
        }
    }
}

proof fn lemma_waiting_was_sent(s: ReaderView, events: Seq<ReaderEvent>, n: nat, w: Waiting)
    requires
        is_run(s, events),
        s.waiting.len() == 0,
        n <= events.len(),
        state_at(s, events, n).waiting.contains(w),
    ensures
        exists|j: nat| j < n && #[trigger] sent_as(s, events, j, w.promise, w.serial),
    decreases n,
{
    if n > 0 {
        let m = (n - 1) as nat;
        let before = state_at(s, events, m);
        let after = state_at(s, events, n);
        assert(before.expects(events[n - 1]));
        let p = after.waiting.index_of(w);
        assert(after.waiting[p] == w);
        if before.waiting.contains(w) {
            lemma_waiting_was_sent(s, events, m, w);
            let j = choose|j: nat| j < m && #[trigger] sent_as(s, events, j, w.promise, w.serial);
            assert(j < n && sent_as(s, events, j, w.promise, w.serial));
        } else {
            match events[n - 1] {
                ReaderEvent::SendPdu { promise } => {
                    assert(after.waiting == before.waiting.push(
                        Waiting { serial: before.next_serial, promise },
                    ));
                    if p < before.waiting.len() {
                        assert(before.waiting[p] == w);
                    }
                    assert(sent_as(s, events, m, w.promise, w.serial));
                },
                ReaderEvent::Decoded { serial } => {
                    if after.waiting != before.waiting && after.waiting.len() > 0 {
                        let i = place_of(before.waiting, serial)->0;
                        assert(after.waiting == before.waiting.remove(i));
                        assert(serials(before.waiting)[i] == serial);
                        if p < i {
                            assert(before.waiting[p] == w);
                        } else {
                            assert(before.waiting[p + 1] == w);
                        }
                    }
                },
                _ => {},
            }
        }
    }
}

/// A promise is fulfilled only by the response that bears the serial under which
/// its request was sent.
pub proof fn responses_go_to_their_requests(
    is_local: bool,
    now: u64,
    events: Seq<ReaderEvent>,
    k: nat,
    promise: u64,
)
    requires
        is_run(ReaderView::fresh(is_local, now), events),
        k < events.len(),
        action_at(ReaderView::fresh(is_local, now), events, k) == (ReaderActionView::Deliver {
            promise,
        }),
    ensures
        ({
            let s = ReaderView::fresh(is_local, now);
            exists|serial: u64, j: nat|
                #![trigger sent_as(s, events, j, promise, serial)]
                j < k && sent_as(s, events, j, promise, serial) && answered_as(
                    s,
                    events,
                    k,
                    promise,
                    serial,
                )
        }),
{
    let s = ReaderView::fresh(is_local, now);
    let before = state_at(s, events, k);
    assert(before.expects(events[k as int]));
    let serial = events[k as int]->Decoded_serial;
    let i = place_of(before.waiting, serial)->0;
    assert(serials(before.waiting)[i] == serial);
    let w = before.waiting[i];
    assert(w.serial == serial && w.promise == promise);
    assert(before.waiting.contains(w));
    lemma_waiting_was_sent(s, events, k, w);
    let j = choose|j: nat| j < k && #[trigger] sent_as(s, events, j, w.promise, w.serial);
    assert(sent_as(s, events, j, promise, serial));
    assert(answered_as(s, events, k, promise, serial));
}

proof fn lemma_sent_is_kept(
    s: ReaderView,
    events: Seq<ReaderEvent>,
    n: nat,
    j: nat,
    promise: u64,
    serial: u64,
)
    requires
        is_run(s, events),
        j < n <= events.len(),
        sent_as(s, events, j, promise, serial),
    ensures
        state_at(s, events, n).stage is Ended || state_at(s, events, n).waiting.contains(
            Waiting { serial, promise },
        ) || exists|i: nat| j < i < n && #[trigger] answered_as(s, events, i, promise, serial),
    decreases n,
{
    let m = (n - 1) as nat;
    let w = Waiting { serial, promise };
    let before = state_at(s, events, m);
    let after = state_at(s, events, n);
    assert(before.expects(events[n - 1]));
    if m == j {
        assert(after.waiting == before.waiting.push(w));
        assert(after.waiting.last() == w);
        assert(after.waiting[after.waiting.len() - 1] == w);
    } else {
        lemma_sent_is_kept(s, events, m, j, promise, serial);
        if exists|i: nat| j < i < m && #[trigger] answered_as(s, events, i, promise, serial) {
            let i = choose|i: nat|
                j < i < m && #[trigger] answered_as(s, events, i, promise, serial);
            assert(j < i < n && answered_as(s, events, i, promise, serial));
        } else {
            let p = before.waiting.index_of(w);
            assert(before.waiting[p] == w);
            match events[n - 1] {
                ReaderEvent::SendPdu { promise: other } => {
                    assert(after.waiting[p] == w);
                },
                ReaderEvent::Decoded { serial: got } => {
                    if after.waiting != before.waiting && !(after.stage is Ended) {
                        let i = place_of(before.waiting, got)->0;
                        assert(after.waiting == before.waiting.remove(i));
                        assert(serials(before.waiting)[i] == got);
                        if p == i {
                            assert(answered_as(s, events, m, promise, serial));
                        } else if p < i {
                            assert(after.waiting[p] == w);
                        } else {
                            assert(after.waiting[p - 1] == w);
                        }
                    }
                },
                _ => {},
            }
        }
    }
}

/// Nobody is left waiting when the loop ends: every request that was sent has
/// had its response by then, or is told that there will be none.
pub proof fn the_end_answers_everybody(
    is_local: bool,
    now: u64,
    events: Seq<ReaderEvent>,
    k: nat,
    j: nat,
    promise: u64,
    serial: u64,
)
    requires
        is_run(ReaderView::fresh(is_local, now), events),
        j < k < events.len(),
        sent_as(ReaderView::fresh(is_local, now), events, j, promise, serial),
        action_at(ReaderView::fresh(is_local, now), events, k) is End,
    ensures
        ({
            let s = ReaderView::fresh(is_local, now);
            ||| action_at(s, events, k)->failed.contains(promise)
            ||| exists|i: nat| j < i < k && #[trigger] answered_as(s, events, i, promise, serial)
        }),
{
    let s = ReaderView::fresh(is_local, now);
    let before = state_at(s, events, k);
    assert(before.expects(events[k as int]));
    lemma_sent_is_kept(s, events, k, j, promise, serial);
    let w = Waiting { serial, promise };
    if before.waiting.contains(w) {
        let p = before.waiting.index_of(w);
        assert(before.waiting[p] == w);
        assert(promises(before.waiting)[p] == promise);
        assert(action_at(s, events, k)->failed == promises(before.waiting));
    }
}

/// The loop never ends well: it stops nowhere but at an end, which carries its
/// error, and nothing follows that.
pub proof fn the_loop_ends_with_an_error(s: ReaderView, events: Seq<ReaderEvent>, n: nat)
    requires
        is_run(s, events),
        !(s.stage is Ended),
        n <= events.len(),
    ensures
        state_at(s, events, n).stage is Ended ==> n > 0 && n == events.len() && action_at(
            s,
            events,
            (n - 1) as nat,
        ) is End,
        forall|k: nat| k < n && #[trigger] action_at(s, events, k) is End ==> k + 1 == n,
{
    assert forall|k: nat| k < n && #[trigger] action_at(s, events, k) is End implies k + 1 == n by {
        assert(state_at(s, events, k).expects(events[k as int]));
        assert(state_at(s, events, k + 1).stage is Ended);
        if k + 1 < n {
            assert(state_at(s, events, k + 1).expects(events[(k + 1) as int]));
        }
    }
    if n > 0 && state_at(s, events, n).stage is Ended {
        assert(state_at(s, events, (n - 1) as nat).expects(events[n - 1]));
        if n < events.len() {
            assert(state_at(s, events, n).expects(events[n as int]));
        }
    }
}

/// The time from which the keepalive timer of a connection that is there since
/// `start` counts after the first `n` events: that of the latest sign of life,
/// be it something to read or a ping that has gone out in full.
pub open spec fn counted_from(
    start: u64,
    s: ReaderView,
    events: Seq<ReaderEvent>,
    n: nat,
) -> u64
    decreases n,
{
    if n == 0 {
        start
    } else {
        match events[n - 1] {
            ReaderEvent::Readable { now } => now,
            ReaderEvent::Sent { now } if n >= 2 && action_at(s, events, (n - 2) as nat) is SendPing => now,
            _ => counted_from(start, s, events, (n - 1) as nat),
        }
    }
}

/// Whether nothing has been there to read, among the first `n` events, since the
/// last ping was sent.
pub open spec fn ping_is_open(s: ReaderView, events: Seq<ReaderEvent>, n: nat) -> bool
    decreases n,
{
    if n == 0 {
        false
    } else if action_at(s, events, (n - 1) as nat) is SendPing {
        true
    } else if events[n - 1] is Readable {
        false
    } else {
        ping_is_open(s, events, (n - 1) as nat)
    }
}

proof fn lemma_keepalive_state(
    is_local: bool,
    start: u64,
    events: Seq<ReaderEvent>,
    n: nat,
)
    requires
        is_run(ReaderView::fresh(is_local, start), events),
        n <= events.len(),
    ensures
        ({
            let s = ReaderView::fresh(is_local, start);
            let after = state_at(s, events, n);
            &&& after.keepalive_enabled == !is_local
            &&& after.last_activity == counted_from(start, s, events, n)
            &&& after.awaiting_pong == ping_is_open(s, events, n)
            &&& after.stage is PingSending <==> n > 0 && action_at(
                s,
                events,
                (n - 1) as nat,
            ) is SendPing
        }),
    decreases n,
{
    let s = ReaderView::fresh(is_local, start);
    if n > 0 {
        let m = (n - 1) as nat;
        lemma_keepalive_state(is_local, start, events, m);
        assert(state_at(s, events, m).expects(events[n - 1]));
    }
}

/// The keepalive timer of a connection to another machine is always set, and that
/// of a local one never. It fires fifteen seconds after the latest of the
/// connection's start, the last time that there was something to read and the
/// last ping that has gone out in full; while a ping is open, ten seconds after
/// that. So a ping never goes out sooner than fifteen seconds after the last sign
/// of life, and nothing is given up sooner than ten seconds after the ping.
/// Requests do not move the timer.
pub proof fn the_timer_counts_from_the_last_sign_of_life(
    is_local: bool,
    start: u64,
    events: Seq<ReaderEvent>,
    n: nat,
)
    requires
        is_run(ReaderView::fresh(is_local, start), events),
        n <= events.len(),
    ensures
        ({
            let s = ReaderView::fresh(is_local, start);
            let since = counted_from(start, s, events, n);
            let due: int = since + if ping_is_open(s, events, n) {
                10_000int
            } else {
                15_000int
            };
            let set = state_at(s, events, n).deadline();
            &&& set is None <==> is_local
            &&& set is Some && due <= u64::MAX ==> set->0 == due
            &&& set is Some && due > u64::MAX ==> set->0 == u64::MAX
            &&& n > 0 && action_at(s, events, (n - 1) as nat) is Wait ==> action_at(
                s,
                events,
                (n - 1) as nat,
            )->deadline == set
        }),
{
    let s = ReaderView::fresh(is_local, start);
    lemma_keepalive_state(is_local, start, events, n);
    if n > 0 {
        assert(state_at(s, events, (n - 1) as nat).expects(events[n - 1]));
    }
}

/// The timer leads to a ping where none is open, and to the end of the connection
/// where one is; neither comes about otherwise.
pub proof fn the_timer_pings_once_and_then_gives_up(
    is_local: bool,
    start: u64,
    events: Seq<ReaderEvent>,
    k: nat,
)
    requires
        is_run(ReaderView::fresh(is_local, start), events),
        k < events.len(),
    ensures
        ({
            let s = ReaderView::fresh(is_local, start);
            let action = action_at(s, events, k);
            let fired = events[k as int] is KeepaliveTick;
            &&& action is SendPing <==> fired && !ping_is_open(s, events, k)
            &&& action is End && action->end is TimedOut <==> fired && ping_is_open(s, events, k)
        }),
{
    let s = ReaderView::fresh(is_local, start);
    lemma_keepalive_state(is_local, start, events, k);
    assert(state_at(s, events, k).expects(events[k as int]));
}

/// Sending a request, and that it has gone out, moves neither the timer nor what
/// is awaited.
pub proof fn requests_do_not_move_the_timer(s: ReaderView, promise: u64, now: u64)
    requires
        s.wf(),
        s.expects(ReaderEvent::SendPdu { promise }),
    ensures
        ({
            let sending = s.next(ReaderEvent::SendPdu { promise }).0;
            let (sent, action) = sending.next(ReaderEvent::Sent { now });
            &&& sending.expects(ReaderEvent::Sent { now })
            &&& sending.deadline() == s.deadline()
            &&& sent.deadline() == s.deadline()
            &&& action == (ReaderActionView::Wait { deadline: s.deadline() })
            &&& sent.last_activity == s.last_activity
            &&& sent.awaiting_pong == s.awaiting_pong
        }),
{
}

/// A ping has ten seconds from the time at which it has gone out, and whatever is
/// there to read gives the connection its full interval back.
pub proof fn a_ping_is_given_its_time(s: ReaderView, now: u64, later: u64)
    requires
        s.wf(),
        s.expects(ReaderEvent::KeepaliveTick),
        !s.awaiting_pong,
        now + 10_000 <= u64::MAX,
        later + 15_000 <= u64::MAX,
    ensures
        ({
            let sending = s.next(ReaderEvent::KeepaliveTick).0;
            let (sent, action) = sending.next(ReaderEvent::Sent { now });
            let read = sent.next(ReaderEvent::Readable { now: later }).0;
            &&& sending.expects(ReaderEvent::Sent { now })
            &&& action == (ReaderActionView::Wait { deadline: Some((now + 10_000) as u64) })
            &&& sent.expects(ReaderEvent::Readable { now: later })
            &&& read.deadline() == Some((later + 15_000) as u64)
        }),
{
}

/// Each action is followed by word of its own outcome: what is sent goes out or
/// fails, what is read is decoded or fails, what is processed or handed over is
/// or is not, a wait is ended by whatever comes first, and an end by nothing.
pub proof fn each_action_has_its_outcomes(s: ReaderView, event: ReaderEvent, then: ReaderEvent)
    requires
        s.wf(),
        s.expects(event),
    ensures
        ({
            let (after, action) = s.next(event);
            after.expects(then) <==> match action {
                ReaderActionView::Wait { deadline } => then is SendPdu || then is Readable
                    || then is Closed || (then is KeepaliveTick && deadline is Some),
                ReaderActionView::SendPing { .. } => then is Sent || then is SendFailed,
                ReaderActionView::SendRequest { .. } => then is Sent || then is SendFailed,
                ReaderActionView::Decode { .. } => then is Decoded || then is DecodeFailed,
                ReaderActionView::ProcessUnilateral => then is Processed || then is ProcessFailed,
                ReaderActionView::Deliver { .. } => then is Delivered,
                ReaderActionView::End { .. } => false,
            }
        }),
{
}

/// A new loop waits, and takes up whatever comes first.
pub proof fn a_new_loop_waits(is_local: bool, start: u64, then: ReaderEvent)
    ensures
        ReaderView::fresh(is_local, start).wf(),
        ReaderView::fresh(is_local, start).expects(then) <==> then is SendPdu || then is Readable
            || then is Closed || (then is KeepaliveTick && !is_local),
{
}

/// The loop ends for a cause, and says which: the error of a failed step is the
/// one that the step failed with, and who waits is told that the connection timed
/// out, that a response was not asked for or not readable, or else that the
/// connection is gone.
pub proof fn the_end_names_its_cause(s: ReaderView, event: ReaderEvent)
    requires
        s.wf(),
        s.expects(event),
    ensures
        ({
            let action = s.next(event).1;
            let cause = if event is SendFailed {
                Some(ReaderEnd::Send(event->SendFailed_0))
            } else if event is DecodeFailed {
                Some(ReaderEnd::Decode(event->DecodeFailed_0))
            } else if event is ProcessFailed {
                Some(ReaderEnd::Unilateral(event->ProcessFailed_0))
            } else if event is Closed || event == ReaderEvent::Delivered(false) {
                Some(ReaderEnd::ClientWasDestroyed)
            } else {
                None
            };
            &&& cause is Some ==> action is End && action->end == cause->0
            &&& cause is None && action is End ==> action->end is TimedOut
                || action->end is UnknownSerial
            &&& action is End ==> (action->reason is NoPong <==> action->end is TimedOut)
            &&& action is End ==> (action->reason is UnknownSerial <==> action->end is UnknownSerial)
            &&& action is End ==> (action->reason is Decode <==> action->end is Decode)
            &&& event is Sent || event is Processed || event == ReaderEvent::Delivered(true)
                ==> action is Wait
        }),
{
}

/// A message is taken for what its serial says: nought is the server's own
/// accord, the serial of a waiting request is the response to it, that of a ping
/// its answer, and no other is accepted.
pub proof fn serials_say_what_a_message_is(s: ReaderView, serial: u64)
    requires
        s.wf(),
        s.stage is Decoding,
    ensures
        ({
            let (after, action) = s.next(ReaderEvent::Decoded { serial });
            let asked = exists|i: int| 0 <= i < s.waiting.len() && (#[trigger] s.waiting[i]).serial == serial;
            let pinged = exists|i: int| 0 <= i < s.pings.len() && #[trigger] s.pings[i] == serial;
            &&& action is ProcessUnilateral <==> serial == 0
            &&& action is Deliver <==> asked
            &&& action is Wait <==> pinged
            &&& action is End <==> serial != 0 && !asked && !pinged
            &&& action is End ==> action->end == ReaderEnd::UnknownSerial(serial)
            &&& !pinged ==> after.pings == s.pings
            &&& after.last_activity == s.last_activity && after.next_serial == s.next_serial
        }),
{
    let asked = exists|i: int| 0 <= i < s.waiting.len() && (#[trigger] s.waiting[i]).serial == serial;
    let w = serials(s.waiting);
    if w.contains(serial) {
        let k = w.index_of(serial);
        assert(s.waiting[k].serial == serial);
    }
    if asked {
        let i = choose|i: int| 0 <= i < s.waiting.len() && (#[trigger] s.waiting[i]).serial == serial;
        assert(w[i] == serial);
        assert(!s.pings.contains(serial));
    }
    if s.pings.contains(serial) {
        let k = s.pings.index_of(serial);
        assert(s.pings[k] == serial);
    }
}

/// Something to read is decoded, and no serial that has not been sent is taken
/// for a response: the bound is one above the serials sent so far.
pub proof fn responses_are_bounded_by_what_was_sent(
    is_local: bool,
    start: u64,
    events: Seq<ReaderEvent>,
    k: nat,
)
    requires
        is_run(ReaderView::fresh(is_local, start), events),
        k < events.len(),
    ensures
        ({
            let s = ReaderView::fresh(is_local, start);
            let action = action_at(s, events, k);
            &&& action is Decode <==> events[k as int] is Readable
            &&& action is Decode ==> action->max_serial == sent_serials(s, events, k).len() + 1
        }),
{
    let s = ReaderView::fresh(is_local, start);
    serials_count_up(is_local, start, events, k);
    assert(state_at(s, events, k).expects(events[k as int]));
}

/// The pings that are open to an answer are those that were sent, oldest first:
/// each ping that is sent joins them at the end, and only an answer removes any.
pub proof fn pings_wait_for_their_answers(s: ReaderView, event: ReaderEvent)
    requires
        s.wf(),
        s.expects(event),
    ensures
        ({
            let (after, action) = s.next(event);
            &&& action is SendPing ==> after.pings == s.pings.push(action->SendPing_serial)
            &&& !(action is SendPing) && !(event is Decoded) ==> after.pings == s.pings
            &&& after.pings.len() < s.pings.len() ==> s.pings.contains(event->Decoded_serial)
        }),
{
}

/// Only a client that is gone is not taken up again; what the other side closed
/// is told apart from what failed, and no end counts as finished.
pub proof fn ends_are_told_apart(end: ReaderEnd, eof: bool)
    ensures
        end.exit_kind(eof) is Destroyed <==> end is ClientWasDestroyed,
        end.exit_kind(eof) is Eof <==> eof && !(end is ClientWasDestroyed),
        end.exit_kind(eof) is Failed <==> !eof && !(end is ClientWasDestroyed),
{
}

/// What the waiting requests are told, and what the end says of itself, is what
/// came about: a ping without an answer, an answer without a question, a response
/// that could not be read, a message that could not be processed, an error of
/// sending in its own words, or that the client is gone.
pub proof fn ends_say_what_came_about(detail: Seq<char>, e: String, serial: u64)
    ensures
        FailReason::NoPong.text(detail) == "connection timed out (no response to keepalive ping)"@,
        FailReason::UnknownSerial.text(detail) == "got serial "@ + detail
            + " without a corresponding promise"@,
        FailReason::Decode.text(detail) == "Error while decoding response pdu: "@ + detail,
        FailReason::Destroyed.text(detail) == "Client was destroyed"@,
        ReaderEnd::TimedOut.text(detail)
            == "connection timed out: no data received for 10s after keepalive ping"@,
        ReaderEnd::UnknownSerial(serial).text(detail) == FailReason::UnknownSerial.text(detail),
        ReaderEnd::Decode(e).text(detail) == "Error while decoding response pdu"@,
        ReaderEnd::Unilateral(e).text(detail) == "processing unilateral PDU from server"@,
        ReaderEnd::Send(e).text(detail) == e@,
        ReaderEnd::ClientWasDestroyed.text(detail) == "Client was destroyed"@,
{
}

} // verus!
