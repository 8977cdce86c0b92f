//! One turn of the session loop: the order of its parts, what is polled and for
//! how long, and what readiness leads to.

use crate::channels::{ChannelId, ChannelInfo, ChannelView, Channels, DescriptorView};
use crate::session_inner::{SessionInner, MAX_POLL_DELAY, MIN_POLL_DELAY};
use vstd::prelude::*;

verus! {

/// The parts of a turn, in their order.
#[derive(Debug, Clone, Copy, PartialEq, Eq, Structural)]
pub enum TurnStep {
    NoteDelivery,
    KeepAlive,
    TickIo,
    DrainRequestPipe,
    /// Serve one request.
    Dispatch,
    /// Take over one forwarded agent channel.
    ForwardAgent,
    /// See whether the loop ends.
    CheckEnd,
    Poll,
}

impl TurnStep {
    /// What follows this part; `again` says that there was a request to serve,
    /// or an agent channel to take over, and so there may be another.
    pub open spec fn following(self, again: bool) -> TurnStep {
        match self {
            TurnStep::NoteDelivery => TurnStep::KeepAlive,
            TurnStep::KeepAlive => TurnStep::TickIo,
            TurnStep::TickIo => TurnStep::DrainRequestPipe,
            TurnStep::DrainRequestPipe => TurnStep::Dispatch,
            TurnStep::Dispatch => if again {
                TurnStep::Dispatch
            } else {
                TurnStep::ForwardAgent
            },
            TurnStep::ForwardAgent => if again {
                TurnStep::ForwardAgent
            } else {
                TurnStep::CheckEnd
            },
            TurnStep::CheckEnd => TurnStep::Poll,
            TurnStep::Poll => TurnStep::NoteDelivery,
        }
    }

    /// What follows this part.
    pub fn next(self, again: bool) -> (r: TurnStep)
        ensures
            r == self.following(again),
    {
        match self {
            TurnStep::NoteDelivery => TurnStep::KeepAlive,
            TurnStep::KeepAlive => TurnStep::TickIo,
            TurnStep::TickIo => TurnStep::DrainRequestPipe,
            TurnStep::DrainRequestPipe => TurnStep::Dispatch,
            TurnStep::Dispatch if again => TurnStep::Dispatch,
            TurnStep::Dispatch => TurnStep::ForwardAgent,
            TurnStep::ForwardAgent if again => TurnStep::ForwardAgent,
            TurnStep::ForwardAgent => TurnStep::CheckEnd,
            TurnStep::CheckEnd => TurnStep::Poll,
            TurnStep::Poll => TurnStep::NoteDelivery,
        }
    }
}

/// What one descriptor is polled for.
#[derive(Debug, Clone, Copy, PartialEq, Eq, Structural)]
pub struct PollEntry {
    pub channel_id: ChannelId,
    /// Zero for the stream to the remote side, one and two for its output.
    pub fd_num: usize,
    pub fd: u64,
    pub readable: bool,
    pub writable: bool,
}

/// What to poll: the request pipe is always polled for input as well.
#[derive(Debug)]
pub struct PollPlan {
    pub session_readable: bool,
    pub session_writable: bool,
    pub entries: Vec<PollEntry>,
}

/// The stream that feeds the remote side is polled for input.
pub open spec fn input_entry(c: ChannelView) -> Seq<PollEntry> {
    match c.stdin.fd {
        Some(fd) => seq![
            PollEntry {
                channel_id: c.channel_id,
                fd_num: 0,
                fd,
                readable: true,
                writable: false,
            },
        ],
        None => Seq::empty(),
    }
}

/// An output stream is polled for room once there is something to pass on, or
/// nothing more to come.
pub open spec fn output_entry(c: ChannelView, d: DescriptorView, fd_num: usize) -> Seq<PollEntry> {
    match d.fd {
        Some(fd) => seq![
            PollEntry {
                channel_id: c.channel_id,
                fd_num,
                fd,
                readable: false,
                writable: d.buf.len() > 0 || c.exited,
            },
        ],
        None => Seq::empty(),
    }
}

pub open spec fn channel_entries(c: ChannelView) -> Seq<PollEntry> {
    input_entry(c) + output_entry(c, c.stdout, 1) + output_entry(c, c.stderr, 2)
}

/// The entries of all channels, one for each open descriptor.
pub open spec fn poll_entries(v: Seq<ChannelView>) -> Seq<PollEntry>
    decreases v.len(),
{
    if v.len() == 0 {
        Seq::empty()
    } else {
        poll_entries(v.drop_last()) + channel_entries(v.last())
    }
}

fn push_entries(c: &ChannelInfo, entries: &mut Vec<PollEntry>)
    ensures
        final(entries)@ == old(entries)@ + channel_entries(c@),
{
    if let Some(fd) = c.stdin.fd {
        entries.push(
            PollEntry {
                channel_id: c.channel_id,
                fd_num: 0,
                fd,
                readable: true,
                writable: false,
            },
        );
    }
    assert(entries@ == old(entries)@ + input_entry(c@));
    if let Some(fd) = c.stdout.fd {
        let writable = !c.stdout.buf.is_empty() || c.exited;
        entries.push(
            PollEntry { channel_id: c.channel_id, fd_num: 1, fd, readable: false, writable },
        );
    }
    assert(entries@ == old(entries)@ + (input_entry(c@) + output_entry(c@, c@.stdout, 1)));
    if let Some(fd) = c.stderr.fd {
        let writable = !c.stderr.buf.is_empty() || c.exited;
        entries.push(
            PollEntry { channel_id: c.channel_id, fd_num: 2, fd, readable: false, writable },
        );
    }
    assert(entries@ == old(entries)@ + channel_entries(c@));
}

/// Whether the session socket is polled for input.
pub open spec fn wants_session_input(channels: Seq<ChannelView>, readable: bool) -> bool {
    readable || exists|i: int| 0 <= i < channels.len() && (#[trigger] channels[i]).has_room()
}

/// What to poll. The session socket is polled for what the SSH library is
/// blocked on, and for input whenever a channel has room for more output.
pub fn poll_plan(inner: &SessionInner, readable: bool, writable: bool) -> (plan: PollPlan)
    requires
        inner.wf(),
    ensures
        plan.session_writable == writable,
        plan.session_readable == (readable || exists|i: int|
            0 <= i < inner@.channels.len() && (#[trigger] inner@.channels[i]).has_room()),
        plan.session_readable == wants_session_input(inner@.channels, readable),
        plan.entries@ == poll_entries(inner@.channels),
{
    let channels = inner.channels();
    let has_room = channels.has_room_for_channel_output();
    let mut entries: Vec<PollEntry> = Vec::new();
    let mut i: usize = 0;
    assert(channels@.take(0) == Seq::<ChannelView>::empty());
    while i < channels.len()
        invariant
            i <= channels@.len(),
            entries@ == poll_entries(channels@.take(i as int)),
        decreases channels@.len() - i,
    {
        push_entries(channels.at(i), &mut entries);
        i = i + 1;
        assert(channels@.take(i as int).drop_last() == channels@.take(i - 1));
    }
    assert(channels@.take(i as int) == channels@);
    PollPlan { session_readable: readable || has_room, session_writable: writable, entries }
}

/// Whether a wait of the poll loop is within its bounds.
pub open spec fn is_poll_delay(delay: u64) -> bool {
    MIN_POLL_DELAY <= delay <= MAX_POLL_DELAY
}

/// The wait that follows: any activity resets it, otherwise it doubles up to the
/// bound.
pub open spec fn delay_after(delay: u64, moved_io: bool, ready: bool) -> u64 {
    if moved_io || ready {
        MIN_POLL_DELAY
    } else if 2 * delay <= MAX_POLL_DELAY {
        (2 * delay) as u64
    } else {
        MAX_POLL_DELAY
    }
}

/// How long a poll waits: not at all after a tick that moved bytes.
pub open spec fn poll_wait(delay: u64, moved_io: bool) -> u64 {
    if moved_io {
        0
    } else {
        delay
    }
}

/// The backoff of the poll loop, in milliseconds.
#[derive(Debug, Clone, Copy, PartialEq, Eq, Structural)]
pub struct Backoff {
    sleep_delay: u64,
}

impl View for Backoff {
    type V = u64;

    closed spec fn view(&self) -> u64 {
        self.sleep_delay
    }
}

impl Backoff {
    #[verifier::type_invariant]
    spec fn inv(self) -> bool {
        is_poll_delay(self.sleep_delay)
    }

    pub fn new() -> (b: Backoff)
        ensures
            b@ == MIN_POLL_DELAY,
    {
        Backoff { sleep_delay: MIN_POLL_DELAY }
    }

    /// How long to poll: not at all after a tick that moved bytes, since the
    /// SSH library may be holding more.
    pub fn wait(&self, moved_io: bool) -> (ms: u64)
        ensures
            ms == if moved_io {
                0
            } else {
                self@
            },
            ms <= MAX_POLL_DELAY,
            ms == poll_wait(self@, moved_io),
    {
        proof {
            use_type_invariant(self);
        }
        if moved_io {
            0
        } else {
            self.sleep_delay
        }
    }

    /// Accounts for a poll, which found some descriptor ready or none.
    pub fn polled(&mut self, moved_io: bool, ready: bool)
        ensures
            is_poll_delay(final(self)@),
            final(self)@ == delay_after(old(self)@, moved_io, ready),
    {
        proof {
            use_type_invariant(&*self);
        }
        let doubled: u64 = self.sleep_delay + self.sleep_delay;
        self.sleep_delay = if moved_io || ready {
            MIN_POLL_DELAY
        } else if doubled <= MAX_POLL_DELAY {
            doubled
        } else {
            MAX_POLL_DELAY
        };
    }
}

/// What a ready descriptor calls for.
#[derive(Debug, Clone, Copy, PartialEq, Eq, Structural)]
pub enum ReadyAction {
    /// Read from it into the buffer.
    Read,
    /// Write the buffer to it.
    Write,
    /// Nothing more will come for it: close it.
    Close,
}

pub open spec fn ready_action(c: ChannelView, fd_num: usize) -> ReadyAction {
    if fd_num == 0 {
        ReadyAction::Read
    } else if c.exited && (if fd_num == 1 {
        c.stdout.buf.len() == 0
    } else {
        c.stderr.buf.len() == 0
    }) {
        ReadyAction::Close
    } else {
        ReadyAction::Write
    }
}

impl Channels {
    /// What a ready descriptor of the channel at place `i` calls for.
    pub fn ready_action(&self, i: usize, fd_num: usize) -> (a: ReadyAction)
        requires
            i < self@.len(),
            fd_num < 3,
        ensures
            a == ready_action(self@[i as int], fd_num),
    {
        let c = self.at(i);
        if fd_num == 0 {
            ReadyAction::Read
        } else if c.exited && (if fd_num == 1 {
            c.stdout.buf.is_empty()
        } else {
            c.stderr.buf.is_empty()
        }) {
            ReadyAction::Close
        } else {
            ReadyAction::Write
        }
    }
}

/// The wait between polls never falls below the shortest and never grows past
/// the bound, however long the session stays idle; and activity brings it back
/// to the shortest at once.
pub proof fn poll_wait_is_bounded(delay: u64, moved_io: bool, ready: bool)
    requires
        is_poll_delay(delay),
    ensures
        is_poll_delay(delay_after(delay, moved_io, ready)),
        moved_io || ready ==> delay_after(delay, moved_io, ready) == MIN_POLL_DELAY,
        !moved_io && !ready ==> delay_after(delay, moved_io, ready) >= delay,
        delay == MAX_POLL_DELAY && !moved_io && !ready ==> delay_after(delay, moved_io, ready)
            == delay,
{
}

/// Every turn passes through the parts in the same order: after requests have
/// been served the loop looks whether it ends before it polls again.
pub proof fn a_turn_checks_for_its_end_before_polling()
    ensures
        TurnStep::NoteDelivery.following(false).following(false).following(false).following(
            false,
        ) is Dispatch,
        TurnStep::Dispatch.following(false).following(false).following(false) is Poll,
        TurnStep::Dispatch.following(false).following(false) is CheckEnd,
        TurnStep::Dispatch.following(true) is Dispatch,
        TurnStep::ForwardAgent.following(true) is ForwardAgent,
        TurnStep::Poll.following(false) is NoteDelivery,
{
}

/// Each open descriptor of a session is polled exactly once: a channel has as
/// many entries as it has open descriptors.
pub proof fn every_open_descriptor_is_polled(c: ChannelView)
    ensures
        channel_entries(c).len() == (if c.stdin.fd is Some {
            1int
        } else {
            0
        }) + (if c.stdout.fd is Some {
            1int
        } else {
            0
        }) + (if c.stderr.fd is Some {
            1int
        } else {
            0
        }),
        c.stdin.fd is Some ==> channel_entries(c)[0].readable,
        forall|i: int|
            0 <= i < channel_entries(c).len() ==> (#[trigger] channel_entries(c)[i]).channel_id
                == c.channel_id,
{
}

/// A turn notes what was delivered, keeps the connection alive, serves the
/// channels, empties the request pipe, serves the requests, takes over agent
/// channels, looks whether it is over and polls, in this order. Only requests and
/// agent channels can have more than one part of a turn.
pub proof fn a_turn_has_its_order(again: bool)
    ensures
        TurnStep::NoteDelivery.following(again) is KeepAlive,
        TurnStep::KeepAlive.following(again) is TickIo,
        TurnStep::TickIo.following(again) is DrainRequestPipe,
        TurnStep::DrainRequestPipe.following(again) is Dispatch,
        TurnStep::Dispatch.following(again) is ForwardAgent <==> !again,
        TurnStep::ForwardAgent.following(again) is CheckEnd <==> !again,
        TurnStep::CheckEnd.following(again) is Poll,
        TurnStep::Poll.following(again) is NoteDelivery,
{
}

/// An idle session is polled at twice the interval each time, up to the longest
/// one.
pub proof fn an_idle_poll_doubles(delay: u64)
    requires
        is_poll_delay(delay),
    ensures
        2 * delay <= MAX_POLL_DELAY ==> delay_after(delay, false, false) == 2 * delay,
        2 * delay > MAX_POLL_DELAY ==> delay_after(delay, false, false) == MAX_POLL_DELAY,
{
}

/// A stream is polled for what can be done with it: the one to the remote side
/// for something to read, an output stream for room, and that exactly where it
/// holds bytes or the command has ended. Each entry names its own descriptor.
pub proof fn streams_are_polled_for_what_they_need(c: ChannelView, e: PollEntry)
    ensures
        channel_entries(c).contains(e) && e.fd_num == 0 ==> c.stdin.fd == Some(e.fd) && e.readable
            && !e.writable,
        channel_entries(c).contains(e) && e.fd_num == 1 ==> c.stdout.fd == Some(e.fd)
            && !e.readable && (e.writable <==> c.stdout.buf.len() > 0 || c.exited),
        channel_entries(c).contains(e) && e.fd_num == 2 ==> c.stderr.fd == Some(e.fd)
            && !e.readable && (e.writable <==> c.stderr.buf.len() > 0 || c.exited),
        channel_entries(c).contains(e) ==> e.fd_num <= 2 && e.channel_id == c.channel_id,
        c.stdin.fd is Some ==> exists|i: int|
            0 <= i < channel_entries(c).len() && (#[trigger] channel_entries(c)[i]).fd_num == 0,
        c.stdout.fd is Some ==> exists|i: int|
            0 <= i < channel_entries(c).len() && (#[trigger] channel_entries(c)[i]).fd_num == 1,
        c.stderr.fd is Some ==> exists|i: int|
            0 <= i < channel_entries(c).len() && (#[trigger] channel_entries(c)[i]).fd_num == 2,
{
    let all = channel_entries(c);
    let a = input_entry(c);
    let b = output_entry(c, c.stdout, 1);
    if c.stdin.fd is Some {
        assert(all[0].fd_num == 0);
    }
    if c.stdout.fd is Some {
        assert(all[a.len() as int].fd_num == 1);
    }
    if c.stderr.fd is Some {
        assert(all[(a.len() + b.len()) as int].fd_num == 2);
    }
}

/// All that is polled belongs to some channel, and all that a channel has to be
/// polled for is.
pub proof fn every_channel_is_polled(v: Seq<ChannelView>, e: PollEntry)
    ensures
        poll_entries(v).contains(e) <==> exists|i: int|
            0 <= i < v.len() && channel_entries(#[trigger] v[i]).contains(e),
    decreases v.len(),
{
    if v.len() > 0 {
        let w = v.drop_last();
        let before = poll_entries(w);
        let own = channel_entries(v.last());
        let all = poll_entries(v);
        every_channel_is_polled(w, e);
        if all.contains(e) {
            let k = all.index_of(e);
            if k < before.len() {
                assert(before[k] == e);
                let i = choose|i: int|
                    0 <= i < w.len() && channel_entries(#[trigger] w[i]).contains(e);
                assert(v[i] == w[i]);
            } else {
                assert(own[k - before.len()] == e);
                assert(channel_entries(v[v.len() - 1]).contains(e));
            }
        }
        if exists|i: int| 0 <= i < v.len() && channel_entries(#[trigger] v[i]).contains(e) {
            let i = choose|i: int| 0 <= i < v.len() && channel_entries(#[trigger] v[i]).contains(e);
            if i < w.len() {
                assert(w[i] == v[i]);
                assert(all[before.index_of(e)] == e);
            } else {
                assert(all[before.len() + own.index_of(e)] == e);
            }
        }
    }
}

/// The stream to the remote side is read when it is ready. An output stream is
/// written while it holds bytes, and closed once it holds none and the command
/// has ended: what the command wrote last is never cut off.
pub proof fn output_is_written_before_it_is_closed(c: ChannelView, fd_num: usize)
    requires
        fd_num < 3,
    ensures
        ready_action(c, fd_num) is Read <==> fd_num == 0,
        fd_num == 1 ==> (ready_action(c, fd_num) is Close <==> c.exited && c.stdout.buf.len() == 0),
        fd_num == 2 ==> (ready_action(c, fd_num) is Close <==> c.exited && c.stderr.buf.len() == 0),
{
}

/// The session is polled for input where the SSH library waits for some, and
/// whenever an output stream is open and has room for it.
pub proof fn room_for_output_is_waited_for(channels: Seq<ChannelView>, readable: bool, i: int)
    requires
        0 <= i < channels.len(),
    ensures
        readable ==> wants_session_input(channels, readable),
        channels[i].stdout.fd is Some && channels[i].stdout.buf.len() < channels[i].stdout.limit
            ==> wants_session_input(channels, readable),
        channels[i].stderr.fd is Some && channels[i].stderr.buf.len() < channels[i].stderr.limit
            ==> wants_session_input(channels, readable),
        !readable && (forall|j: int|
            0 <= j < channels.len() ==> ((#[trigger] channels[j]).stdout.fd is None
                || channels[j].stdout.buf.len() >= channels[j].stdout.limit) && (
            channels[j].stderr.fd is None || channels[j].stderr.buf.len()
                >= channels[j].stderr.limit)) ==> !wants_session_input(channels, readable),
{
    assert(channels[i].stdout.fd is Some && channels[i].stdout.buf.len() < channels[i].stdout.limit
        ==> channels[i].has_room());
    assert(channels[i].stderr.fd is Some && channels[i].stderr.buf.len() < channels[i].stderr.limit
        ==> channels[i].has_room());
}

/// A poll waits between a tenth and a quarter of a second, and not at all while
/// bytes are moving.
pub proof fn moving_bytes_are_not_waited_for(delay: u64)
    requires
        is_poll_delay(delay),
    ensures
        poll_wait(delay, true) == 0,
        100 <= poll_wait(delay, false) <= 250,
        poll_wait(delay, false) == delay,
        delay_after(delay, true, false) == 100,
        delay_after(delay, false, true) == 100,
        delay_after(100, false, false) == 200,
        delay_after(200, false, false) == 250,
{
}

} // verus!
