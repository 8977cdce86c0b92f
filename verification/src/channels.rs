//! The channels of one SSH session and the bytes that move through them.

use crate::stream::{ReadOutcome, StreamBuffer, WriteOutcome};
use vstd::prelude::*;

verus! {

/// Names a channel within its session.
pub type ChannelId = usize;

/// How a remote command ended.
#[derive(Debug, Clone, Copy, PartialEq, Eq, Structural)]
pub struct ExitStatus {
    pub code: u32,
}

/// One stream of a channel: the local descriptor, while it is open, and the
/// bytes on their way through.
pub struct DescriptorState {
    pub fd: Option<u64>,
    pub buf: StreamBuffer,
}

/// What a stream holds.
pub struct DescriptorView {
    pub fd: Option<u64>,
    pub buf: Seq<u8>,
    pub limit: nat,
}

impl View for DescriptorState {
    type V = DescriptorView;

    open spec fn view(&self) -> DescriptorView {
        DescriptorView { fd: self.fd, buf: self.buf@, limit: self.buf.limit() }
    }
}

impl DescriptorView {
    pub open spec fn wf(self) -> bool {
        self.buf.len() <= self.limit
    }

    /// An open stream with nothing in it yet.
    pub open spec fn fresh(fd: Option<u64>) -> DescriptorView {
        DescriptorView { fd, buf: Seq::empty(), limit: crate::stream::STREAM_CAPACITY as nat }
    }

    /// There is something to hand to the remote side.
    pub open spec fn wants_write(self) -> bool {
        self.fd is Some && self.buf.len() > 0
    }

    /// There is room for more from the remote side.
    pub open spec fn wants_read(self) -> bool {
        self.fd is Some && self.buf.len() < self.limit
    }

    /// The stream after its bytes were offered to the remote side; a failure
    /// closes the pipe.
    pub open spec fn after_write(self, outcome: WriteOutcome) -> DescriptorView {
        match outcome {
            WriteOutcome::Wrote(n) => DescriptorView { buf: self.buf.skip(n as int), ..self },
            WriteOutcome::WouldBlock => self,
            WriteOutcome::Failed => DescriptorView { fd: None, ..self },
        }
    }

    /// The stream after the remote side was read; the end, or a failure, closes
    /// the pipe once nothing is left to pass on.
    pub open spec fn after_read(self, outcome: ReadOutcome) -> DescriptorView {
        match outcome {
            ReadOutcome::Data(d) => DescriptorView { buf: self.buf + d@, ..self },
            ReadOutcome::WouldBlock => self,
            _ => if self.buf.len() == 0 {
                DescriptorView { fd: None, ..self }
            } else {
                self
            },
        }
    }

    /// The stream to the remote side after its descriptor was read; the end, or
    /// a failure, closes it.
    pub open spec fn filled(self, outcome: ReadOutcome) -> DescriptorView {
        match outcome {
            ReadOutcome::Data(d) => DescriptorView { buf: self.buf + d@, ..self },
            ReadOutcome::WouldBlock => self,
            _ => DescriptorView { fd: None, ..self },
        }
    }
}

/// One channel. The first stream feeds the remote side, the other two carry
/// what comes back.
pub struct ChannelInfo {
    pub channel_id: ChannelId,
    /// Where the exit status goes, until it is known.
    pub exit: Option<u64>,
    pub exited: bool,
    pub stdin: DescriptorState,
    pub stdout: DescriptorState,
    pub stderr: DescriptorState,
}

/// What a channel holds.
pub struct ChannelView {
    pub channel_id: ChannelId,
    pub exit: Option<u64>,
    pub exited: bool,
    pub stdin: DescriptorView,
    pub stdout: DescriptorView,
    pub stderr: DescriptorView,
}

impl View for ChannelInfo {
    type V = ChannelView;

    open spec fn view(&self) -> ChannelView {
        ChannelView {
            channel_id: self.channel_id,
            exit: self.exit,
            exited: self.exited,
            stdin: self.stdin@,
            stdout: self.stdout@,
            stderr: self.stderr@,
        }
    }
}

/// What came of one channel's share of a tick.
#[derive(Debug)]
pub struct ChannelOutcome {
    pub exit_status: Option<ExitStatus>,
    pub stdin: Option<WriteOutcome>,
    pub stdout: Option<ReadOutcome>,
    pub stderr: Option<ReadOutcome>,
}

/// What one channel asks of a tick.
#[derive(Debug, Clone, Copy, PartialEq, Eq, Structural)]
pub struct ChannelPlan {
    pub channel_id: ChannelId,
    pub ask_exit_status: bool,
    pub write_stdin: bool,
    pub read_stdout: bool,
    pub read_stderr: bool,
}

impl ChannelView {
    pub open spec fn wf(self) -> bool {
        self.stdin.wf() && self.stdout.wf() && self.stderr.wf()
    }

    /// What the channel asks of a tick.
    pub open spec fn plan(self) -> ChannelPlan {
        ChannelPlan {
            channel_id: self.channel_id,
            ask_exit_status: self.exit is Some,
            write_stdin: self.stdin.wants_write(),
            read_stdout: self.stdout.wants_read(),
            read_stderr: self.stderr.wants_read(),
        }
    }

    /// The outcome answers exactly what the channel asked, within its bounds.
    pub open spec fn admits(self, o: ChannelOutcome) -> bool {
        &&& o.exit_status is Some ==> self.exit is Some
        &&& o.stdin is Some <==> self.stdin.wants_write()
        &&& o.stdout is Some <==> self.stdout.wants_read()
        &&& o.stderr is Some <==> self.stderr.wants_read()
        &&& o.stdin matches Some(WriteOutcome::Wrote(n)) ==> n <= self.stdin.buf.len()
        &&& o.stdout matches Some(ReadOutcome::Data(d)) ==> 0 < d@.len() <= self.stdout.limit
            - self.stdout.buf.len()
        &&& o.stderr matches Some(ReadOutcome::Data(d)) ==> 0 < d@.len() <= self.stderr.limit
            - self.stderr.buf.len()
    }

    /// The channel after a tick.
    pub open spec fn ticked(self, o: ChannelOutcome) -> ChannelView {
        ChannelView {
            channel_id: self.channel_id,
            exit: if o.exit_status is Some {
                None
            } else {
                self.exit
            },
            exited: self.exited || o.exit_status is Some,
            stdin: match o.stdin {
                Some(w) => self.stdin.after_write(w),
                None => self.stdin,
            },
            stdout: match o.stdout {
                Some(r) => self.stdout.after_read(r),
                None => self.stdout,
            },
            stderr: match o.stderr {
                Some(r) => self.stderr.after_read(r),
                None => self.stderr,
            },
        }
    }

    /// Whether the tick moved bytes through this channel.
    pub open spec fn moved(self, o: ChannelOutcome) -> bool {
        ||| self.ticked(o).stdin.buf.len() != self.stdin.buf.len()
        ||| self.ticked(o).stdout.buf.len() != self.stdout.buf.len()
        ||| self.ticked(o).stderr.buf.len() != self.stderr.buf.len()
    }

    /// Nothing local is attached to the channel any more.
    pub open spec fn is_dead(self) -> bool {
        self.stdin.fd is None && self.stdout.fd is None && self.stderr.fd is None
    }

    /// Some output stream has room for more.
    pub open spec fn has_room(self) -> bool {
        self.stdout.wants_read() || self.stderr.wants_read()
    }

    /// The output stream with the given number.
    pub open spec fn output(self, fd_num: usize) -> DescriptorView {
        if fd_num == 1 {
            self.stdout
        } else {
            self.stderr
        }
    }

    pub open spec fn with_output(self, fd_num: usize, d: DescriptorView) -> ChannelView {
        if fd_num == 1 {
            ChannelView { stdout: d, ..self }
        } else {
            ChannelView { stderr: d, ..self }
        }
    }

    /// The status to report, and to whom.
    pub open spec fn notice(self, o: ChannelOutcome) -> Option<(u64, ExitStatus)> {
        match (self.exit, o.exit_status) {
            (Some(reply), Some(status)) => Some((reply, status)),
            _ => None,
        }
    }
}

pub open spec fn channel_views(v: Seq<ChannelInfo>) -> Seq<ChannelView> {
    v.map_values(|c: ChannelInfo| c@)
}

/// The channels after a tick, without those that nothing is attached to.
pub open spec fn survivors(v: Seq<ChannelView>, o: Seq<ChannelOutcome>) -> Seq<ChannelView>
    decreases v.len(),
{
    if v.len() == 0 {
        Seq::empty()
    } else {
        let rest = survivors(v.drop_last(), o);
        let last = v.last().ticked(o[v.len() - 1]);
        if last.is_dead() {
            rest
        } else {
            rest.push(last)
        }
    }
}

/// The exit statuses that a tick reports, in the order of the channels.
pub open spec fn exit_notices(v: Seq<ChannelView>, o: Seq<ChannelOutcome>) -> Seq<
    (u64, ExitStatus),
>
    decreases v.len(),
{
    if v.len() == 0 {
        Seq::empty()
    } else {
        let rest = exit_notices(v.drop_last(), o);
        match v.last().notice(o[v.len() - 1]) {
            Some(n) => rest.push(n),
            None => rest,
        }
    }
}

/// Every channel has an outcome that it admits.
pub open spec fn all_admit(v: Seq<ChannelView>, o: Seq<ChannelOutcome>) -> bool {
    &&& o.len() == v.len()
    &&& forall|i: int| 0 <= i < v.len() ==> (#[trigger] v[i]).admits(o[i])
}

pub open spec fn all_wf(v: Seq<ChannelView>) -> bool {
    forall|i: int| 0 <= i < v.len() ==> (#[trigger] v[i]).wf()
}

pub open spec fn ids_distinct(v: Seq<ChannelView>) -> bool {
    forall|i: int, j: int|
        0 <= i < j < v.len() ==> (#[trigger] v[i]).channel_id != (#[trigger] v[j]).channel_id
}

impl DescriptorState {
    /// A stream on the descriptor `fd`, with an empty buffer.
    pub fn new(fd: Option<u64>) -> (d: DescriptorState)
        ensures
            d@ == DescriptorView::fresh(fd),
    {
        DescriptorState { fd, buf: StreamBuffer::new() }
    }

    fn wrote(&mut self, outcome: WriteOutcome)
        requires
            old(self)@.wf(),
            old(self).buf.admits_write(outcome),
        ensures
            final(self)@ == old(self)@.after_write(outcome),
            final(self)@.wf(),
    {
        if self.buf.write_from_buf(outcome) {
            self.fd = None;
        }
    }

    fn received(&mut self, outcome: ReadOutcome)
        requires
            old(self)@.wf(),
            old(self).buf.admits_read(outcome),
        ensures
            final(self)@ == old(self)@.after_read(outcome),
            final(self)@.wf(),
    {
        if self.buf.read_into_buf(outcome) && self.buf.is_empty() {
            self.fd = None;
        }
    }

    fn wants_read(&self) -> (r: bool)
        requires
            self@.wf(),
        ensures
            r == self@.wants_read(),
    {
        self.fd.is_some() && self.buf.room() > 0
    }
}

impl ChannelInfo {
    /// What the channel asks of a tick.
    pub fn plan(&self) -> (p: ChannelPlan)
        requires
            self@.wf(),
        ensures
            p == self@.plan(),
    {
        ChannelPlan {
            channel_id: self.channel_id,
            ask_exit_status: self.exit.is_some(),
            write_stdin: self.stdin.fd.is_some() && !self.stdin.buf.is_empty(),
            read_stdout: self.stdout.wants_read(),
            read_stderr: self.stderr.wants_read(),
        }
    }

    /// Applies a tick's outcome and says whether bytes moved.
    fn tick(&mut self, outcome: ChannelOutcome) -> (moved: bool)
        requires
            old(self)@.wf(),
            old(self)@.admits(outcome),
        ensures
            final(self)@ == old(self)@.ticked(outcome),
            final(self)@.wf(),
            moved == old(self)@.moved(outcome),
    {
        if outcome.exit_status.is_some() {
            self.exited = true;
            self.exit = None;
        }
        let before_in: usize = self.stdin.buf.len();
        let before_out: usize = self.stdout.buf.len();
        let before_err: usize = self.stderr.buf.len();
        if let Some(w) = outcome.stdin {
            self.stdin.wrote(w);
        }
        if let Some(r) = outcome.stdout {
            self.stdout.received(r);
        }
        if let Some(r) = outcome.stderr {
            self.stderr.received(r);
        }
        self.stdin.buf.len() != before_in || self.stdout.buf.len() != before_out
            || self.stderr.buf.len() != before_err
    }

    fn is_dead(&self) -> (r: bool)
        ensures
            r == self@.is_dead(),
    {
        self.stdin.fd.is_none() && self.stdout.fd.is_none() && self.stderr.fd.is_none()
    }
}

proof fn lemma_survivors_admit(v: Seq<ChannelView>, o: Seq<ChannelOutcome>)
    requires
        all_admit(v, o),
        all_wf(v),
        ids_distinct(v),
    ensures
        all_wf(survivors(v, o)),
        ids_distinct(survivors(v, o)),
        forall|i: int|
            0 <= i < survivors(v, o).len() ==> exists|j: int|
                0 <= j < v.len() && (#[trigger] survivors(v, o)[i]).channel_id == (
                #[trigger] v[j]).channel_id,
    decreases v.len(),
{
    if v.len() > 0 {
        let w = v.drop_last();
        let ow = o.drop_last();
        assert(all_admit(w, ow)) by {
            assert forall|i: int| 0 <= i < w.len() implies (#[trigger] w[i]).admits(ow[i]) by {
                assert(w[i] == v[i]);
            }
        }
        lemma_survivors_ext(w, o, ow);
        lemma_survivors_admit(w, ow);
        assert(v.last().admits(o[v.len() - 1]));
        let rest = survivors(w, o);
        let all = survivors(v, o);
        assert forall|i: int| 0 <= i < all.len() implies exists|j: int|
            0 <= j < v.len() && (#[trigger] all[i]).channel_id == (#[trigger] v[j]).channel_id by {
            if i < rest.len() {
                assert(all[i] == rest[i]);
                let j = choose|j: int|
                    0 <= j < w.len() && rest[i].channel_id == (#[trigger] w[j]).channel_id;
                assert(v[j] == w[j]);
            } else {
                assert(v[v.len() - 1].channel_id == all[i].channel_id);
            }
        }
        assert(ids_distinct(all)) by {
            assert forall|i: int, j: int| 0 <= i < j < all.len() implies (
            #[trigger] all[i]).channel_id != (#[trigger] all[j]).channel_id by {
                assert(all[i] == rest[i]);
                if j < rest.len() {
                    assert(all[j] == rest[j]);
                } else {
                    let k = choose|k: int|
                        0 <= k < w.len() && rest[i].channel_id == (#[trigger] w[k]).channel_id;
                    assert(v[k] == w[k]);
                    assert(v[k].channel_id != v[v.len() - 1].channel_id);
                }
            }
        }
        assert(all_wf(all)) by {
            assert forall|i: int| 0 <= i < all.len() implies (#[trigger] all[i]).wf() by {
                if i < rest.len() {
                    assert(all[i] == rest[i]);
                } else {
                    assert(v[v.len() - 1].wf());
                }
            }
        }
    }
}

proof fn lemma_survivors_ext(v: Seq<ChannelView>, o: Seq<ChannelOutcome>, p: Seq<ChannelOutcome>)
    requires
        v.len() <= o.len(),
        v.len() <= p.len(),
        forall|i: int| 0 <= i < v.len() ==> #[trigger] o[i] == p[i],
    ensures
        survivors(v, o) == survivors(v, p),
        exit_notices(v, o) == exit_notices(v, p),
    decreases v.len(),
{
    if v.len() > 0 {
        lemma_survivors_ext(v.drop_last(), o, p);
        assert(o[v.len() - 1] == p[v.len() - 1]);
    }
}

proof fn lemma_same_ids(a: Seq<ChannelView>, b: Seq<ChannelView>, k: int)
    requires
        all_wf(a),
        ids_distinct(a),
        0 <= k < a.len(),
        b.len() == a.len(),
        b[k].channel_id == a[k].channel_id,
        b[k].wf(),
        forall|i: int| 0 <= i < a.len() && i != k ==> #[trigger] b[i] == a[i],
    ensures
        all_wf(b),
        ids_distinct(b),
{
    assert forall|i: int| 0 <= i < b.len() implies (#[trigger] b[i]).wf() by {
        assert(a[i].wf());
        if i != k {
            assert(b[i] == a[i]);
        }
    }
    assert forall|i: int, j: int| 0 <= i < j < b.len() implies (#[trigger] b[i]).channel_id != (
    #[trigger] b[j]).channel_id by {
        assert(a[i].channel_id != a[j].channel_id);
        assert(i != k ==> b[i] == a[i]);
        assert(j != k ==> b[j] == a[j]);
    }
}

/// What a tick came to.
#[derive(Debug)]
pub struct TickResult {
    /// Whether bytes moved in either direction.
    pub moved: bool,
    /// The exit statuses to report, each with whom to tell.
    pub exits: Vec<(u64, ExitStatus)>,
}

/// The channels of a session, each with its own id.
pub struct Channels {
    list: Vec<ChannelInfo>,
}

impl View for Channels {
    type V = Seq<ChannelView>;

    closed spec fn view(&self) -> Seq<ChannelView> {
        channel_views(self.list@)
    }
}

impl Channels {
    pub open spec fn wf(&self) -> bool {
        all_wf(self@) && ids_distinct(self@)
    }

    pub open spec fn has_id(&self, id: ChannelId) -> bool {
        exists|i: int| 0 <= i < self@.len() && (#[trigger] self@[i]).channel_id == id
    }

    pub fn new() -> (c: Channels)
        ensures
            c.wf(),
            c@ == Seq::<ChannelView>::empty(),
    {
        let c = Channels { list: Vec::new() };
        assert(c@ == Seq::<ChannelView>::empty());
        c
    }

    pub fn is_empty(&self) -> (r: bool)
        ensures
            r == (self@.len() == 0),
    {
        self.list.len() == 0
    }

    pub fn len(&self) -> (n: usize)
        ensures
            n == self@.len(),
    {
        self.list.len()
    }

    /// The channel at place `i`.
    pub fn at(&self, i: usize) -> (c: &ChannelInfo)
        requires
            i < self@.len(),
        ensures
            c@ == self@[i as int],
    {
        &self.list[i]
    }

    /// Adds a channel.
    pub fn insert(&mut self, info: ChannelInfo)
        requires
            old(self).wf(),
            info@.wf(),
            !old(self).has_id(info.channel_id),
        ensures
            final(self).wf(),
            final(self)@ == old(self)@.push(info@),
    {
        self.list.push(info);
        assert(self@ == old(self)@.push(info@));
        assert forall|i: int, j: int| 0 <= i < j < self@.len() implies (
        #[trigger] self@[i]).channel_id != (#[trigger] self@[j]).channel_id by {
            assert(self@[i] == old(self)@[i]);
            if j < old(self)@.len() {
                assert(self@[j] == old(self)@[j]);
            }
        }
        assert forall|i: int| 0 <= i < self@.len() implies (#[trigger] self@[i]).wf() by {
            if i < old(self)@.len() {
                assert(self@[i] == old(self)@[i]);
            }
        }
    }

    /// The place of the channel with the given id.
    pub fn find(&self, id: ChannelId) -> (r: Option<usize>)
        ensures
            match r {
                Some(i) => i < self@.len() && self@[i as int].channel_id == id,
                None => !self.has_id(id),
            },
    {
        let mut i: usize = 0;
        while i < self.list.len()
            invariant
                i <= self.list.len(),
                forall|j: int| 0 <= j < i ==> (#[trigger] self@[j]).channel_id != id,
            decreases self.list.len() - i,
        {
            assert(self@[i as int] == self.list@[i as int]@);
            if self.list[i].channel_id == id {
                return Some(i);
            }
            i = i + 1;
        }
        None
    }

    /// What the next tick has to attempt, channel by channel: at most one write
    /// and one read per stream, and none for a stream that is closed, has
    /// nothing to send or has no room.
    pub fn tick_plan(&self) -> (plans: Vec<ChannelPlan>)
        requires
            self.wf(),
        ensures
            plans@ == self@.map_values(|c: ChannelView| c.plan()),
    {
        let mut plans: Vec<ChannelPlan> = Vec::new();
        let mut i: usize = 0;
        while i < self.list.len()
            invariant
                i <= self.list.len(),
                self.wf(),
                plans@ == self@.take(i as int).map_values(|c: ChannelView| c.plan()),
            decreases self.list.len() - i,
        {
            assert(self@[i as int] == self.list@[i as int]@);
            plans.push(self.list[i].plan());
            i = i + 1;
            assert(plans@ == self@.take(i as int).map_values(|c: ChannelView| c.plan()));
        }
        assert(self@.take(self@.len() as int) == self@);
        plans
    }

    /// Applies what came of a tick. Channels that nothing is attached to any
    /// more are dropped.
    pub fn tick_io(&mut self, outcomes: Vec<ChannelOutcome>) -> (r: TickResult)
        requires
            old(self).wf(),
            all_admit(old(self)@, outcomes@),
        ensures
            final(self).wf(),
            final(self)@ == survivors(old(self)@, outcomes@),
            r.exits@ == exit_notices(old(self)@, outcomes@),
            r.moved == exists|i: int|
                0 <= i < old(self)@.len() && (#[trigger] old(self)@[i]).moved(outcomes@[i]),
    {
        let ghost all = old(self)@;
        let ghost given = outcomes@;
        proof {
            lemma_survivors_admit(all, given);
        }
        let mut todo: Vec<ChannelInfo> = Vec::new();
        std::mem::swap(&mut todo, &mut self.list);
        let mut outcomes = outcomes;
        let mut kept: Vec<ChannelInfo> = Vec::new();
        let mut exits: Vec<(u64, ExitStatus)> = Vec::new();
        let mut moved = false;
        let ghost mut done: int = 0;
        assert(channel_views(todo@) == all.skip(0));
        assert(given.skip(0) == given);
        assert(channel_views(kept@) == Seq::<ChannelView>::empty());
        while todo.len() > 0
            invariant
                0 <= done <= all.len(),
                all.len() == given.len(),
                all_admit(all, given),
                all_wf(all),
                channel_views(todo@) == all.skip(done),
                outcomes@ == given.skip(done),
                channel_views(kept@) == survivors(all.take(done), given),
                exits@ == exit_notices(all.take(done), given),
                moved == exists|i: int| 0 <= i < done && (#[trigger] all[i]).moved(given[i]),
            decreases todo.len(),
        {
            let ghost rest = todo@;
            assert(channel_views(rest).len() == all.skip(done).len());
            let mut chan = todo.remove(0);
            let outcome = outcomes.remove(0);
            let ghost c = all[done];
            assert(chan@ == channel_views(rest)[0]);
            assert(chan@ == c);
            assert(outcome == given[done]);
            assert(c.wf() && c.admits(given[done]));
            assert(channel_views(todo@) =~= all.skip(done + 1)) by {
                assert forall|k: int| 0 <= k < todo@.len() implies #[trigger] channel_views(
                    todo@,
                )[k] == all.skip(done + 1)[k] by {
                    assert(todo@[k] == rest[k + 1]);
                    assert(channel_views(rest)[k + 1] == all.skip(done)[k + 1]);
                }
            }
            assert(outcomes@ == given.skip(done + 1));
            assert(all.take(done + 1).drop_last() == all.take(done));
            assert(all.take(done + 1).last() == c);
            if let Some(reply) = chan.exit {
                if let Some(status) = outcome.exit_status {
                    exits.push((reply, status));
                }
            }
            let ghost before_moved = moved;
            if chan.tick(outcome) {
                moved = true;
                assert(all[done].moved(given[done]));
            }
            assert(chan@ == c.ticked(given[done]));
            assert(moved == exists|i: int|
                0 <= i < done + 1 && (#[trigger] all[i]).moved(given[i])) by {
                if before_moved {
                    let i = choose|i: int| 0 <= i < done && (#[trigger] all[i]).moved(given[i]);
                    assert(all[i].moved(given[i]));
                }
            }
            if !chan.is_dead() {
                let ghost k = kept@;
                kept.push(chan);
                assert(channel_views(kept@) == channel_views(k).push(chan@));
            }
            proof {
                done = done + 1;
            }
        }
        assert(all.take(done) == all);
        self.list = kept;
        assert(self@ == survivors(all, given));
        TickResult { moved, exits }
    }

    /// The local end of the stream to the remote side was read. The end, or a
    /// failure, closes it; the result says so, and the channel is then to be
    /// closed too.
    pub fn stdin_filled(&mut self, i: usize, outcome: ReadOutcome) -> (close_channel: bool)
        requires
            old(self).wf(),
            i < old(self)@.len(),
            outcome matches ReadOutcome::Data(d) ==> 0 < d@.len() <= old(
                self,
            )@[i as int].stdin.limit - old(self)@[i as int].stdin.buf.len(),
        ensures
            final(self).wf(),
            close_channel == (outcome is Eof || outcome is Failed),
            final(self)@ == old(self)@.update(
                i as int,
                ChannelView {
                    stdin: old(self)@[i as int].stdin.filled(outcome),
                    ..old(self)@[i as int]
                },
            ),
            final(self)@[i as int] == old(self)@[i as int].stepped(ChannelStep::Filled(outcome)),
            close_channel ==> final(self)@[i as int].stdin.fd is None,
            !close_channel ==> final(self)@[i as int].stdin.fd == old(self)@[i as int].stdin.fd,
    {
        assert(old(self)@[i as int] == old(self).list@[i as int]@);
        assert(old(self)@[i as int].wf());
        let c = &mut self.list[i];
        let failed = c.stdin.buf.read_into_buf(outcome);
        if failed {
            c.stdin.fd = None;
        }
        proof {
            lemma_same_ids(old(self)@, self@, i as int);
        }
        failed
    }

    /// Buffered output was written to the local end of an output stream; a
    /// failure closes it.
    pub fn output_drained(&mut self, i: usize, fd_num: usize, outcome: WriteOutcome)
        requires
            old(self).wf(),
            i < old(self)@.len(),
            fd_num == 1 || fd_num == 2,
            outcome matches WriteOutcome::Wrote(n) ==> n <= old(self)@[i as int].output(
                fd_num,
            ).buf.len(),
        ensures
            final(self).wf(),
            final(self)@ == old(self)@.update(
                i as int,
                old(self)@[i as int].with_output(
                    fd_num,
                    old(self)@[i as int].output(fd_num).after_write(outcome),
                ),
            ),
            final(self)@[i as int] == old(self)@[i as int].stepped(
                ChannelStep::Drained(fd_num, outcome),
            ),
    {
        assert(old(self)@[i as int] == old(self).list@[i as int]@);
        assert(old(self)@[i as int].wf());
        let c = &mut self.list[i];
        if fd_num == 1 {
            c.stdout.wrote(outcome);
        } else {
            c.stderr.wrote(outcome);
        }
        proof {
            lemma_same_ids(old(self)@, self@, i as int);
        }
    }

    /// The local end of an output stream is closed.
    pub fn output_closed(&mut self, i: usize, fd_num: usize)
        requires
            old(self).wf(),
            i < old(self)@.len(),
            fd_num == 1 || fd_num == 2,
        ensures
            final(self).wf(),
            final(self)@ == old(self)@.update(
                i as int,
                old(self)@[i as int].with_output(
                    fd_num,
                    DescriptorView { fd: None, ..old(self)@[i as int].output(fd_num) },
                ),
            ),
            fd_num == 1 ==> final(self)@[i as int].stdout.fd is None
                && final(self)@[i as int].stderr == old(self)@[i as int].stderr,
            fd_num == 2 ==> final(self)@[i as int].stderr.fd is None
                && final(self)@[i as int].stdout == old(self)@[i as int].stdout,
            final(self)@[i as int].stdin == old(self)@[i as int].stdin,
    {
        assert(old(self)@[i as int] == old(self).list@[i as int]@);
        assert(old(self)@[i as int].wf());
        let c = &mut self.list[i];
        if fd_num == 1 {
            c.stdout.fd = None;
        } else {
            c.stderr.fd = None;
        }
        proof {
            lemma_same_ids(old(self)@, self@, i as int);
        }
    }

    /// Whether any channel still has room for more remote output.
    pub fn has_room_for_channel_output(&self) -> (r: bool)
        requires
            self.wf(),
        ensures
            r == exists|i: int| 0 <= i < self@.len() && (#[trigger] self@[i]).has_room(),
    {
        let mut i: usize = 0;
        while i < self.list.len()
            invariant
                i <= self.list.len(),
                self.wf(),
                forall|j: int| 0 <= j < i ==> !(#[trigger] self@[j]).has_room(),
            decreases self.list.len() - i,
        {
            assert(self@[i as int] == self.list@[i as int]@);
            assert(self@[i as int].wf());
            if self.list[i].stdout.wants_read() || self.list[i].stderr.wants_read() {
                return true;
            }
            i = i + 1;
        }
        false
    }
}

/// A byte that a tick takes from the remote side is not lost, and none is made
/// up: each output stream holds what it held, followed by exactly what was
/// read.
pub proof fn tick_keeps_output_in_order(c: ChannelView, o: ChannelOutcome)
    requires
        c.wf(),
        c.admits(o),
    ensures
        c.ticked(o).stdout.buf == c.stdout.buf + (match o.stdout {
            Some(ReadOutcome::Data(d)) => d@,
            _ => Seq::<u8>::empty(),
        }),
        c.ticked(o).stderr.buf == c.stderr.buf + (match o.stderr {
            Some(ReadOutcome::Data(d)) => d@,
            _ => Seq::<u8>::empty(),
        }),
        c.ticked(o).wf(),
{
}

/// An output stream is never closed while it still holds bytes to pass on.
pub proof fn tick_drains_before_closing(c: ChannelView, o: ChannelOutcome)
    requires
        c.wf(),
        c.admits(o),
    ensures
        c.stdout.fd is Some && c.ticked(o).stdout.fd is None ==> c.stdout.buf.len() == 0,
        c.stderr.fd is Some && c.ticked(o).stderr.fd is None ==> c.stderr.buf.len() == 0,
        c.stdout.fd is None ==> c.ticked(o).stdout == c.stdout,
{
}

/// An exit status is reported at most once: after it has been, the channel asks
/// for none.
pub proof fn exit_status_is_reported_once(c: ChannelView, o: ChannelOutcome)
    requires
        c.wf(),
        c.admits(o),
    ensures
        c.notice(o) is Some ==> !c.ticked(o).plan().ask_exit_status && c.ticked(o).exited,
        c.notice(o) is Some <==> o.exit_status is Some,
{
}

/// A byte is handed to the remote side once: after a write that took `n` bytes
/// the stream holds what it held without its first `n`, and otherwise it holds
/// what it held. Only a write that failed closes it.
pub proof fn tick_hands_each_byte_over_once(c: ChannelView, o: ChannelOutcome)
    requires
        c.wf(),
        c.admits(o),
    ensures
        ({
            let after = c.ticked(o).stdin;
            let taken: int = match o.stdin {
                Some(WriteOutcome::Wrote(n)) => n as int,
                _ => 0,
            };
            &&& c.stdin.buf == c.stdin.buf.take(taken) + after.buf
            &&& after.buf.len() == c.stdin.buf.len() - taken
            &&& after.limit == c.stdin.limit
            &&& o.stdin == Some(WriteOutcome::Failed) ==> after.fd is None
            &&& o.stdin != Some(WriteOutcome::Failed) ==> after.fd == c.stdin.fd
        }),
{
}

/// An output stream is closed by a tick exactly when the remote side was at its
/// end, or could not be read, with nothing left to pass on; its descriptor and
/// its limit stay otherwise. A stream that is closed is left alone.
pub proof fn tick_closes_at_the_end(c: ChannelView, o: ChannelOutcome)
    requires
        c.wf(),
        c.admits(o),
    ensures
        ({
            let after = c.ticked(o);
            let out_over = o.stdout is Some && (o.stdout->0 is Eof || o.stdout->0 is Failed);
            let err_over = o.stderr is Some && (o.stderr->0 is Eof || o.stderr->0 is Failed);
            &&& after.stdout.fd == if out_over && c.stdout.buf.len() == 0 {
                None
            } else {
                c.stdout.fd
            }
            &&& after.stderr.fd == if err_over && c.stderr.buf.len() == 0 {
                None
            } else {
                c.stderr.fd
            }
            &&& after.stdout.limit == c.stdout.limit && after.stderr.limit == c.stderr.limit
            &&& c.stdin.fd is None ==> after.stdin == c.stdin
            &&& c.stdout.fd is None ==> after.stdout == c.stdout
            &&& c.stderr.fd is None ==> after.stderr == c.stderr
            &&& after.channel_id == c.channel_id
        }),
{
}

/// A tick counts as having moved something exactly when a byte went out or came
/// in.
pub proof fn moving_is_moving_bytes(c: ChannelView, o: ChannelOutcome)
    requires
        c.wf(),
        c.admits(o),
    ensures
        c.moved(o) <==> (o.stdin matches Some(WriteOutcome::Wrote(n)) && n > 0) || (
        o.stdout is Some && o.stdout->0 is Data) || (o.stderr is Some && o.stderr->0 is Data),
{
}

/// A tick attempts what can come to something, and no more: a write where the
/// stream to the remote side is open and holds bytes, a read where an output
/// stream is open and has room, and the exit status until it is known.
pub proof fn ticks_attempt_what_can_succeed(c: ChannelView)
    requires
        c.wf(),
    ensures
        c.plan().channel_id == c.channel_id,
        c.plan().ask_exit_status <==> c.exit is Some,
        c.plan().write_stdin <==> c.stdin.fd is Some && c.stdin.buf != Seq::<u8>::empty(),
        c.plan().read_stdout <==> c.stdout.fd is Some && c.stdout.buf.len() < c.stdout.limit,
        c.plan().read_stderr <==> c.stderr.fd is Some && c.stderr.buf.len() < c.stderr.limit,
        c.has_room() <==> c.plan().read_stdout || c.plan().read_stderr,
{
    assert(c.stdin.buf.len() == 0 ==> c.stdin.buf == Seq::<u8>::empty());
}

/// The exit status goes to whoever waits for it, with the code that the remote
/// side gave, and is known from then on; nothing else changes who waits.
pub proof fn the_exit_status_is_handed_on(c: ChannelView, o: ChannelOutcome)
    requires
        c.wf(),
        c.admits(o),
    ensures
        o.exit_status is Some ==> c.notice(o) == Some((c.exit->0, o.exit_status->0)),
        o.exit_status is Some ==> c.ticked(o).exit is None && c.ticked(o).exited,
        o.exit_status is None ==> c.ticked(o).exit == c.exit && c.ticked(o).exited == c.exited
            && c.notice(o) is None,
{
}

/// A channel outlives a tick exactly when some stream of it is still attached to
/// something local, and the channels that do keep their order; each exit status
/// that a channel was told of is reported, and none besides.
pub proof fn attached_channels_survive(v: Seq<ChannelView>, o: Seq<ChannelOutcome>, i: int)
    requires
        all_admit(v, o),
        all_wf(v),
        ids_distinct(v),
        0 <= i < v.len(),
    ensures
        ({
            let t = v[i].ticked(o[i]);
            let attached = t.stdin.fd is Some || t.stdout.fd is Some || t.stderr.fd is Some;
            let s = survivors(v, o);
            &&& attached <==> s.contains(t)
            &&& !attached ==> forall|k: int|
                0 <= k < s.len() ==> (#[trigger] s[k]).channel_id != v[i].channel_id
            &&& o[i].exit_status is Some ==> exit_notices(v, o).contains(
                (v[i].exit->0, o[i].exit_status->0),
            )
            &&& s.len() <= v.len()
        }),
    decreases v.len(),
{
    let w = v.drop_last();
    let ow = o.drop_last();
    assert(all_admit(w, ow)) by {
        assert forall|k: int| 0 <= k < w.len() implies (#[trigger] w[k]).admits(ow[k]) by {
            assert(w[k] == v[k]);
        }
    }
    assert(v[i].admits(o[i]));
    lemma_survivors_ext(w, o, ow);
    lemma_survivors_admit(v, o);
    lemma_survivors_len(w, o);
    let s = survivors(v, o);
    let rest = survivors(w, o);
    let t = v[i].ticked(o[i]);
    let last = v.last().ticked(o[v.len() - 1]);
    let attached = t.stdin.fd is Some || t.stdout.fd is Some || t.stderr.fd is Some;
    if i < w.len() {
        assert(w[i] == v[i] && ow[i] == o[i]);
        attached_channels_survive(w, ow, i);
        if rest.contains(t) {
            assert(s[rest.index_of(t)] == t);
        }
        if s.contains(t) && !rest.contains(t) {
            assert(v[i].channel_id != v[v.len() - 1].channel_id);
            assert(last.channel_id != t.channel_id);
            let k = s.index_of(t);
            assert(s[k] == t);
            if k < rest.len() {
                assert(rest[k] == t);
            }
        }
        if !attached {
            assert forall|k: int| 0 <= k < s.len() implies (#[trigger] s[k]).channel_id
                != v[i].channel_id by {
                if k < rest.len() {
                    assert(s[k] == rest[k]);
                } else {
                    assert(v[i].channel_id != v[v.len() - 1].channel_id);
                }
            }
        }
        if o[i].exit_status is Some {
            let n = (v[i].exit->0, o[i].exit_status->0);
            let told = exit_notices(w, o);
            assert(told.contains(n));
            assert(exit_notices(v, o)[told.index_of(n)] == n);
        }
    } else {
        if attached {
            assert(s[rest.len() as int] == t);
        } else {
            assert forall|k: int| 0 <= k < s.len() implies (#[trigger] s[k]).channel_id
                != v[i].channel_id by {
                lemma_survivors_admit(w, ow);
                let j = choose|j: int|
                    0 <= j < w.len() && rest[k].channel_id == (#[trigger] w[j]).channel_id;
                assert(w[j] == v[j]);
                assert(v[j].channel_id != v[i].channel_id);
            }
            if s.contains(t) {
                assert(s[s.index_of(t)].channel_id == v[i].channel_id);
            }
        }
        if o[i].exit_status is Some {
            let told = exit_notices(w, o);
            assert(exit_notices(v, o)[told.len() as int] == (v[i].exit->0, o[i].exit_status->0));
        }
    }
}

proof fn lemma_survivors_len(v: Seq<ChannelView>, o: Seq<ChannelOutcome>)
    ensures
        survivors(v, o).len() <= v.len(),
    decreases v.len(),
{
    if v.len() > 0 {
        lemma_survivors_len(v.drop_last(), o);
    }
}

/// How many of the outcomes say that a command has ended.
pub open spec fn endings(o: Seq<ChannelOutcome>) -> nat
    decreases o.len(),
{
    if o.len() == 0 {
        0
    } else {
        endings(o.drop_last()) + if o.last().exit_status is Some {
            1nat
        } else {
            0nat
        }
    }
}

/// A tick reports as many exit statuses as the remote side gave.
pub proof fn each_ending_is_reported_once(v: Seq<ChannelView>, o: Seq<ChannelOutcome>)
    requires
        all_admit(v, o),
    ensures
        exit_notices(v, o).len() == endings(o),
    decreases v.len(),
{
    if v.len() > 0 {
        let w = v.drop_last();
        let ow = o.drop_last();
        assert(all_admit(w, ow)) by {
            assert forall|k: int| 0 <= k < w.len() implies (#[trigger] w[k]).admits(ow[k]) by {
                assert(w[k] == v[k]);
            }
        }
        assert(v[v.len() - 1].admits(o[v.len() - 1]));
        lemma_survivors_ext(w, o, ow);
        each_ending_is_reported_once(w, ow);
    }
}

/// What happens to one channel.
pub enum ChannelStep {
    /// The remote side was served, with this outcome.
    Ticked(ChannelOutcome),
    /// The local end of the stream to the remote side was read.
    Filled(ReadOutcome),
    /// What an output stream holds was written to its local end.
    Drained(usize, WriteOutcome),
}

impl ChannelView {
    /// The channel after a step.
    pub open spec fn stepped(self, step: ChannelStep) -> ChannelView {
        match step {
            ChannelStep::Ticked(o) => self.ticked(o),
            ChannelStep::Filled(r) => ChannelView { stdin: self.stdin.filled(r), ..self },
            ChannelStep::Drained(fd_num, w) => self.with_output(
                fd_num,
                self.output(fd_num).after_write(w),
            ),
        }
    }

    /// The steps that the channel admits.
    pub open spec fn admits_step(self, step: ChannelStep) -> bool {
        match step {
            ChannelStep::Ticked(o) => self.admits(o),
            ChannelStep::Filled(r) => r matches ReadOutcome::Data(d) ==> 0 < d@.len()
                <= self.stdin.limit - self.stdin.buf.len(),
            ChannelStep::Drained(fd_num, w) => (fd_num == 1 || fd_num == 2) && (
            w matches WriteOutcome::Wrote(n) ==> n <= self.output(fd_num).buf.len()),
        }
    }
}

/// The channel after `steps`.
pub open spec fn channel_after(c: ChannelView, steps: Seq<ChannelStep>) -> ChannelView
    decreases steps.len(),
{
    if steps.len() == 0 {
        c
    } else {
        channel_after(c, steps.drop_last()).stepped(steps.last())
    }
}

/// Whether the channel admits the steps one after the other.
pub open spec fn channel_admits(c: ChannelView, steps: Seq<ChannelStep>) -> bool
    decreases steps.len(),
{
    steps.len() == 0 || (channel_admits(c, steps.drop_last()) && channel_after(
        c,
        steps.drop_last(),
    ).admits_step(steps.last()))
}

/// The bytes that a read brought.
pub open spec fn brought(r: ReadOutcome) -> Seq<u8> {
    match r {
        ReadOutcome::Data(d) => d@,
        _ => Seq::empty(),
    }
}

/// The bytes that a write of `buf` took.
pub open spec fn took(buf: Seq<u8>, w: WriteOutcome) -> Seq<u8> {
    match w {
        WriteOutcome::Wrote(n) => buf.take(n as int),
        _ => Seq::empty(),
    }
}

/// The bytes read from the stream's source over `steps`: number nought is the
/// stream to the remote side, one and two are the output streams.
pub open spec fn came_in(steps: Seq<ChannelStep>, stream: usize) -> Seq<u8>
    decreases steps.len(),
{
    if steps.len() == 0 {
        Seq::empty()
    } else {
        let before = came_in(steps.drop_last(), stream);
        match steps.last() {
            ChannelStep::Filled(r) if stream == 0 => before + brought(r),
            ChannelStep::Ticked(o) if stream == 1 && o.stdout is Some => before + brought(
                o.stdout->0,
            ),
            ChannelStep::Ticked(o) if stream == 2 && o.stderr is Some => before + brought(
                o.stderr->0,
            ),
            _ => before,
        }
    }
}

/// The bytes written to where the stream goes over `steps`.
pub open spec fn went_out(c: ChannelView, steps: Seq<ChannelStep>, stream: usize) -> Seq<u8>
    decreases steps.len(),
{
    if steps.len() == 0 {
        Seq::empty()
    } else {
        let before = went_out(c, steps.drop_last(), stream);
        let now = channel_after(c, steps.drop_last());
        match steps.last() {
            ChannelStep::Ticked(o) if stream == 0 && o.stdin is Some => before + took(
                now.stdin.buf,
                o.stdin->0,
            ),
            ChannelStep::Drained(fd_num, w) if stream == fd_num && stream == 1 => before + took(
                now.stdout.buf,
                w,
            ),
            ChannelStep::Drained(fd_num, w) if stream == fd_num && stream == 2 => before + took(
                now.stderr.buf,
                w,
            ),
            _ => before,
        }
    }
}

/// Every byte passes through a channel once and in its place: over any run, what
/// was written to where a stream goes, followed by what the stream still holds,
/// is what it held at first, followed by what was read from where it comes from.
/// So it is for the stream to the remote side and for both output streams.
pub proof fn bytes_pass_through_in_order(c: ChannelView, steps: Seq<ChannelStep>)
    requires
        c.wf(),
        channel_admits(c, steps),
    ensures
        went_out(c, steps, 0) + channel_after(c, steps).stdin.buf == c.stdin.buf + came_in(steps, 0),
        went_out(c, steps, 1) + channel_after(c, steps).stdout.buf == c.stdout.buf + came_in(
            steps,
            1,
        ),
        went_out(c, steps, 2) + channel_after(c, steps).stderr.buf == c.stderr.buf + came_in(
            steps,
            2,
        ),
        channel_after(c, steps).wf(),
        channel_after(c, steps).channel_id == c.channel_id,
    decreases steps.len(),
{
    if steps.len() > 0 {
        let before = steps.drop_last();
        let now = channel_after(c, before);
        bytes_pass_through_in_order(c, before);
        let after = now.stepped(steps.last());
        match steps.last() {
            ChannelStep::Ticked(o) => {
                if o.stdin is Some {
                    assert(took(now.stdin.buf, o.stdin->0) + after.stdin.buf == now.stdin.buf);
                }
                if o.stdout is Some {
                    assert(after.stdout.buf == now.stdout.buf + brought(o.stdout->0));
                }
                if o.stderr is Some {
                    assert(after.stderr.buf == now.stderr.buf + brought(o.stderr->0));
                }
            },
            ChannelStep::Filled(r) => {
                assert(after.stdin.buf == now.stdin.buf + brought(r));
            },
            ChannelStep::Drained(fd_num, w) => {
                assert(took(now.output(fd_num).buf, w) + after.output(fd_num).buf == now.output(
                    fd_num,
                ).buf);
            },
        }
        lemma_pass(
            went_out(c, before, 0),
            went_out(c, steps, 0),
            now.stdin.buf,
            after.stdin.buf,
            c.stdin.buf,
            came_in(before, 0),
            came_in(steps, 0),
        );
        lemma_pass(
            went_out(c, before, 1),
            went_out(c, steps, 1),
            now.stdout.buf,
            after.stdout.buf,
            c.stdout.buf,
            came_in(before, 1),
            came_in(steps, 1),
        );
        lemma_pass(
            went_out(c, before, 2),
            went_out(c, steps, 2),
            now.stderr.buf,
            after.stderr.buf,
            c.stderr.buf,
            came_in(before, 2),
            came_in(steps, 2),
        );
    }
}

proof fn lemma_pass(
    out: Seq<u8>,
    new_out: Seq<u8>,
    held: Seq<u8>,
    new_held: Seq<u8>,
    first: Seq<u8>,
    came: Seq<u8>,
    new_came: Seq<u8>,
)
    requires
        out + held == first + came,
        (exists|t: Seq<u8>| new_out == #[trigger] (out + t) && t + new_held == held && new_came
            == came) || (exists|t: Seq<u8>| new_came == #[trigger] (came + t) && new_held == held
            + t && new_out == out) || (new_out == out && new_held == held && new_came == came),
    ensures
        new_out + new_held == first + new_came,
{
    if exists|t: Seq<u8>| new_out == #[trigger] (out + t) && t + new_held == held && new_came
        == came {
        let t = choose|t: Seq<u8>|
            new_out == #[trigger] (out + t) && t + new_held == held && new_came == came;
        assert((out + t) + new_held == out + (t + new_held));
    } else if exists|t: Seq<u8>| new_came == #[trigger] (came + t) && new_held == held + t
        && new_out == out {
        let t = choose|t: Seq<u8>|
            new_came == #[trigger] (came + t) && new_held == held + t && new_out == out;
        assert(out + (held + t) == (out + held) + t);
        assert(first + (came + t) == (first + came) + t);
    }
}

/// The stream to the remote side is closed by the end of what feeds it, or a
/// failure to read that, and by nothing else that is read; what it holds is still
/// there to be handed over. An output stream is closed when its local end cannot
/// be written, and each output stream is drained by itself.
pub proof fn local_ends_close_their_own_stream(c: ChannelView, r: ReadOutcome, fd_num: usize, w: WriteOutcome)
    requires
        fd_num == 1 || fd_num == 2,
    ensures
        ({
            let filled = c.stepped(ChannelStep::Filled(r));
            let drained = c.stepped(ChannelStep::Drained(fd_num, w));
            &&& filled.stdin.fd == if r is Eof || r is Failed {
                None
            } else {
                c.stdin.fd
            }
            &&& filled.stdout == c.stdout && filled.stderr == c.stderr && filled.exit == c.exit
            &&& drained.stdin == c.stdin && drained.exit == c.exit
            &&& fd_num == 1 ==> drained.stderr == c.stderr && drained.stdout.fd == if w is Failed {
                None
            } else {
                c.stdout.fd
            }
            &&& fd_num == 2 ==> drained.stdout == c.stdout && drained.stderr.fd == if w is Failed {
                None
            } else {
                c.stderr.fd
            }
        }),
{
}

/// A new stream is empty, on its own descriptor, and holds up to eight kilobytes.
pub proof fn new_streams_are_empty(fd: Option<u64>)
    ensures
        DescriptorView::fresh(fd).fd == fd,
        DescriptorView::fresh(fd).buf == Seq::<u8>::empty(),
        DescriptorView::fresh(fd).limit == 8192,
{
}

} // verus!
