//! Keeping a client connected: when a lost connection is taken up again, how
//! long to wait before it, and when to stop.

use vstd::prelude::*;

verus! {

/// The first wait before a reconnect, in milliseconds.
pub const BASE_INTERVAL: u64 = 1_000;

/// The longest wait before a reconnect, in milliseconds.
pub const MAX_INTERVAL: u64 = 10_000;

/// How the reader loop ended.
#[derive(Debug, Clone, Copy, PartialEq, Eq, Structural)]
pub enum ReaderExit {
    /// Without any error condition.
    Finished,
    /// The client was destroyed.
    Destroyed,
    /// The server closed the connection.
    Eof,
    /// Any other error.
    Failed,
}

/// What happened.
#[derive(Debug, Clone, Copy, PartialEq, Eq, Structural)]
pub enum LinkEvent {
    ReaderEnded(ReaderExit),
    /// The wait is over; `unused` says that nobody uses the connection any
    /// more.
    Slept { unused: bool },
    Connected,
    ConnectFailed,
}

/// What to do next.
#[derive(Debug, Clone, Copy, PartialEq, Eq, Structural)]
pub enum LinkAction {
    /// Run the reader loop on the connection.
    Read,
    /// Wait before the next attempt.
    Sleep { ms: u64 },
    /// Try to connect, neither for the first time nor starting a server.
    Connect,
    /// The connection is back: have the domain attach again, and read.
    ReattachAndRead,
    /// Stop, and detach the domain if there is one.
    Stop { detach: bool },
}

#[derive(Debug, Clone, Copy, PartialEq, Eq, Structural)]
pub enum LinkStage {
    Reading,
    Sleeping,
    Connecting,
    Stopped,
}

/// The state of the link of one client.
#[derive(Debug, Clone, Copy, PartialEq, Eq, Structural)]
pub struct LinkState {
    /// Whether this kind of domain can be reconnected at all.
    pub reconnectable: bool,
    /// Whether a domain is attached to it.
    pub has_domain: bool,
    pub backoff: u64,
    /// Whether the transport is carrying traffic.
    pub connection_live: bool,
    pub stage: LinkStage,
}

impl LinkState {
    /// The state of a link that has just been connected.
    pub open spec fn connected(reconnectable: bool, has_domain: bool) -> LinkState {
        LinkState {
            reconnectable,
            has_domain,
            backoff: BASE_INTERVAL,
            connection_live: true,
            stage: LinkStage::Reading,
        }
    }

    /// The connection counts as live exactly while it is read.
    pub open spec fn wf(self) -> bool {
        &&& BASE_INTERVAL <= self.backoff <= MAX_INTERVAL
        &&& self.connection_live == (self.stage is Reading)
    }

    pub open spec fn stop(self) -> (LinkState, LinkAction) {
        (
            LinkState { connection_live: false, stage: LinkStage::Stopped, ..self },
            LinkAction::Stop { detach: self.has_domain },
        )
    }

    pub open spec fn sleep(self) -> (LinkState, LinkAction) {
        (
            LinkState { connection_live: false, stage: LinkStage::Sleeping, ..self },
            LinkAction::Sleep { ms: self.backoff },
        )
    }

    /// Twice the wait, up to the longest.
    pub open spec fn backed_off(self) -> LinkState {
        LinkState {
            backoff: if 2 * self.backoff <= MAX_INTERVAL {
                (2 * self.backoff) as u64
            } else {
                MAX_INTERVAL
            },
            ..self
        }
    }

    /// The link's next state and action.
    pub open spec fn next(self, event: LinkEvent) -> (LinkState, LinkAction) {
        match event {
            LinkEvent::ReaderEnded(exit) => if exit is Finished || exit is Destroyed
                || !self.reconnectable || !self.has_domain {
                self.stop()
            } else {
                self.sleep()
            },
            LinkEvent::Slept { unused } => if unused {
                self.stop()
            } else {
                (
                    LinkState { stage: LinkStage::Connecting, ..self },
                    LinkAction::Connect,
                )
            },
            LinkEvent::Connected => (
                LinkState {
                    backoff: BASE_INTERVAL,
                    connection_live: true,
                    stage: LinkStage::Reading,
                    ..self
                },
                LinkAction::ReattachAndRead,
            ),
            LinkEvent::ConnectFailed => self.backed_off().sleep(),
        }
    }

    pub open spec fn expects(self, event: LinkEvent) -> bool {
        match event {
            LinkEvent::ReaderEnded(_) => self.stage is Reading,
            LinkEvent::Slept { .. } => self.stage is Sleeping,
            LinkEvent::Connected => self.stage is Connecting,
            LinkEvent::ConnectFailed => self.stage is Connecting,
        }
    }

    fn take_stop(&mut self) -> (action: LinkAction)
        ensures
            (*final(self), action) == old(self).stop(),
    {
        self.connection_live = false;
        self.stage = LinkStage::Stopped;
        LinkAction::Stop { detach: self.has_domain }
    }

    fn take_sleep(&mut self) -> (action: LinkAction)
        ensures
            (*final(self), action) == old(self).sleep(),
    {
        self.connection_live = false;
        self.stage = LinkStage::Sleeping;
        LinkAction::Sleep { ms: self.backoff }
    }

    /// Takes what happened and names what to do next.
    fn advance(&mut self, event: LinkEvent) -> (action: LinkAction)
        requires
            old(self).wf(),
            old(self).expects(event),
        ensures
            final(self).wf(),
            (*final(self), action) == old(self).next(event),
    {
        match event {
            LinkEvent::ReaderEnded(exit) => {
                if exit == ReaderExit::Finished || exit == ReaderExit::Destroyed
                    || !self.reconnectable || !self.has_domain {
                    self.take_stop()
                } else {
                    self.take_sleep()
                }
            },
            LinkEvent::Slept { unused } => if unused {
                self.take_stop()
            } else {
                self.stage = LinkStage::Connecting;
                LinkAction::Connect
            },
            LinkEvent::Connected => {
                self.backoff = BASE_INTERVAL;
                self.connection_live = true;
                self.stage = LinkStage::Reading;
                LinkAction::ReattachAndRead
            },
            LinkEvent::ConnectFailed => {
                let doubled: u64 = self.backoff + self.backoff;
                self.backoff = if doubled <= MAX_INTERVAL {
                    doubled
                } else {
                    MAX_INTERVAL
                };
                self.take_sleep()
            },
        }
    }
}

/// The link of one client.
#[derive(Debug, Clone, Copy, PartialEq, Eq, Structural)]
pub struct Link {
    state: LinkState,
}

impl View for Link {
    type V = LinkState;

    closed spec fn view(&self) -> LinkState {
        self.state
    }
}

impl Link {
    #[verifier::type_invariant]
    spec fn inv(self) -> bool {
        self.state.wf()
    }

    /// The link of a client that has just been connected.
    pub fn new(reconnectable: bool, has_domain: bool) -> (r: (Link, LinkAction))
        ensures
            r.0@.wf(),
            r.0@ == LinkState::connected(reconnectable, has_domain),
            r.1 is Read,
    {
        let state = LinkState {
            reconnectable,
            has_domain,
            backoff: BASE_INTERVAL,
            connection_live: true,
            stage: LinkStage::Reading,
        };
        (Link { state }, LinkAction::Read)
    }

    /// Takes what happened and names what to do next.
    pub fn step(&mut self, event: LinkEvent) -> (action: LinkAction)
        requires
            old(self)@.expects(event),
        ensures
            final(self)@.wf(),
            (final(self)@, action) == old(self)@.next(event),
    {
        proof {
            use_type_invariant(&*self);
        }
        let mut state = self.state;
        let action = state.advance(event);
        self.state = state;
        action
    }

    /// Whether the transport is carrying traffic.
    pub fn is_connection_live(&self) -> (r: bool)
        ensures
            r == self@.connection_live,
    {
        self.state.connection_live
    }
}

/// A frontend never sees a live flag on a dead connection: from the moment the
/// reader ends until a reconnect succeeds the flag is down, and it stays down
/// once the link has stopped.
pub proof fn live_means_reading(l: LinkState, event: LinkEvent)
    requires
        l.wf(),
        l.expects(event),
    ensures
        l.next(event).0.wf(),
        event is ReaderEnded ==> !l.next(event).0.connection_live,
        l.next(event).0.connection_live <==> event is Connected,
{
}

/// A domain that cannot be reconnected never is, and neither is one that nobody
/// is attached to or a client that was destroyed; each stops at once.
pub proof fn some_links_never_reconnect(l: LinkState, exit: ReaderExit)
    requires
        l.wf(),
        l.stage is Reading,
        !l.reconnectable || !l.has_domain || exit is Destroyed || exit is Finished,
    ensures
        l.next(LinkEvent::ReaderEnded(exit)).1 == (LinkAction::Stop { detach: l.has_domain }),
{
}

/// A connection that the server closed is taken up again like any other that
/// was lost.
pub proof fn eof_is_reconnected(l: LinkState)
    requires
        l.wf(),
        l.stage is Reading,
        l.reconnectable,
        l.has_domain,
    ensures
        l.next(LinkEvent::ReaderEnded(ReaderExit::Eof)).1 == (LinkAction::Sleep { ms: l.backoff }),
        l.next(LinkEvent::ReaderEnded(ReaderExit::Eof)) == l.next(
            LinkEvent::ReaderEnded(ReaderExit::Failed),
        ),
{
}

/// Attempts go on only while somebody uses the connection: once nobody does,
/// the next wait is the last.
pub proof fn unused_links_give_up(l: LinkState)
    requires
        l.wf(),
        l.stage is Sleeping,
    ensures
        l.next(LinkEvent::Slept { unused: true }).1 is Stop,
        l.next(LinkEvent::Slept { unused: false }).1 is Connect,
{
}

/// The link after `n` failed attempts in a row.
pub open spec fn after_failures(l: LinkState, n: nat) -> LinkState
    decreases n,
{
    if n == 0 {
        l
    } else {
        after_failures(l, (n - 1) as nat).backed_off()
    }
}

/// The wait doubles with every failed attempt and never passes the longest: one,
/// two, four and eight seconds, and ten from then on. A success starts over.
pub proof fn backoff_doubles_up_to_the_longest(l: LinkState, n: nat)
    requires
        l.wf(),
        l.backoff == BASE_INTERVAL,
    ensures
        after_failures(l, n).backoff == if n == 0 {
            1_000u64
        } else if n == 1 {
            2_000u64
        } else if n == 2 {
            4_000u64
        } else if n == 3 {
            8_000u64
        } else {
            10_000u64
        },
        after_failures(l, n).next(LinkEvent::Connected).0.backoff == BASE_INTERVAL,
    decreases n,
{
    if n > 0 {
        backoff_doubles_up_to_the_longest(l, (n - 1) as nat);
    }
}

/// The link after `events`.
pub open spec fn link_after(l: LinkState, events: Seq<LinkEvent>) -> LinkState
    decreases events.len(),
{
    if events.len() == 0 {
        l
    } else {
        link_after(l, events.drop_last()).next(events.last()).0
    }
}

/// Whether each of `events` could follow the action before it.
pub open spec fn link_admits(l: LinkState, events: Seq<LinkEvent>) -> bool
    decreases events.len(),
{
    events.len() == 0 || (link_admits(l, events.drop_last()) && link_after(
        l,
        events.drop_last(),
    ).expects(events.last()))
}

/// How many attempts have failed since the connection was last there.
pub open spec fn failed_in_a_row(events: Seq<LinkEvent>) -> nat
    decreases events.len(),
{
    if events.len() == 0 || events.last() is Connected {
        0
    } else {
        failed_in_a_row(events.drop_last()) + if events.last() is ConnectFailed {
            1nat
        } else {
            0nat
        }
    }
}

/// Over the whole life of a link, the wait before an attempt is one second after
/// the connection was lost, and two, four, eight and from then on ten seconds
/// after one, two, three and more attempts that failed in a row; a connection
/// that comes back starts the count anew.
pub proof fn waits_grow_with_the_failures(
    reconnectable: bool,
    has_domain: bool,
    events: Seq<LinkEvent>,
)
    requires
        link_admits(LinkState::connected(reconnectable, has_domain), events),
    ensures
        ({
            let l = LinkState::connected(reconnectable, has_domain);
            let k = failed_in_a_row(events);
            let wait = if k == 0 {
                1_000u64
            } else if k == 1 {
                2_000u64
            } else if k == 2 {
                4_000u64
            } else if k == 3 {
                8_000u64
            } else {
                10_000u64
            };
            let after = link_after(l, events);
            let action = link_after(l, events.drop_last()).next(events.last()).1;
            &&& after.backoff == wait
            &&& after.reconnectable == reconnectable && after.has_domain == has_domain
            &&& events.len() > 0 && action is Sleep ==> action == (LinkAction::Sleep { ms: wait })
        }),
    decreases events.len(),
{
    if events.len() > 0 {
        waits_grow_with_the_failures(reconnectable, has_domain, events.drop_last());
    }
}

/// A lost connection is waited for, an attempt follows each wait, and a failed
/// attempt another wait; a connection that comes back has the domain attach again
/// and is read. The link stops where it may not be taken up again or nobody uses
/// it any more, and detaches its domain, if it has one; nothing follows that.
pub proof fn a_link_goes_on_until_it_stops(l: LinkState, event: LinkEvent, then: LinkEvent)
    requires
        l.wf(),
        l.expects(event),
    ensures
        ({
            let (after, action) = l.next(event);
            let given_up = event is ReaderEnded && (event->ReaderEnded_0 is Finished
                || event->ReaderEnded_0 is Destroyed || !l.reconnectable || !l.has_domain);
            &&& action is Stop <==> given_up || event == (LinkEvent::Slept { unused: true })
            &&& action is Stop ==> action == (LinkAction::Stop { detach: l.has_domain })
            &&& action is Sleep <==> (event is ReaderEnded && !given_up) || event is ConnectFailed
            &&& action is Connect <==> event == (LinkEvent::Slept { unused: false })
            &&& action is ReattachAndRead <==> event is Connected
            &&& after.expects(then) <==> match action {
                LinkAction::Read => false,
                LinkAction::Sleep { .. } => then is Slept,
                LinkAction::Connect => then is Connected || then is ConnectFailed,
                LinkAction::ReattachAndRead => then is ReaderEnded,
                LinkAction::Stop { .. } => false,
            }
        }),
{
}

/// A new link is live, and is read.
pub proof fn a_new_link_is_read(reconnectable: bool, has_domain: bool, then: LinkEvent)
    ensures
        LinkState::connected(reconnectable, has_domain).wf(),
        LinkState::connected(reconnectable, has_domain).connection_live,
        LinkState::connected(reconnectable, has_domain).expects(then) <==> then is ReaderEnded,
{
}

} // verus!
