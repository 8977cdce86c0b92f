//! Opening channels: running a command on the remote side, and taking over the
//! agent channels that the remote side opens.

use crate::channels::{ChannelId, ChannelView};
use crate::session_inner::{SessionInner, SessionView};
use crate::session_inner::{agent_forwarded, agent_path};
use vstd::prelude::*;

verus! {

/// Where running a command stands: what was asked for last.
#[derive(Debug, Clone, Copy, PartialEq, Eq, Structural)]
pub enum ExecStage {
    OpenSession,
    Forwarding,
    Env { index: usize },
    RequestExec,
    Pipes { channel_id: ChannelId },
    Finished,
}

/// The next thing to do. Environment variables are named by their place.
#[derive(Debug)]
pub enum ExecAction {
    OpenSession,
    RequestForwarding,
    RequestEnv(usize),
    RequestExec,
    /// Make the three local pipes, all of them non-blocking on this side.
    MakePipes,
    Done(ChannelId),
    Fail(String),
}

/// What came of the last action.
#[derive(Debug)]
pub enum ExecEvent {
    Succeeded,
    Failed(String),
    /// The session's ends of the pipes, and where the exit status goes.
    Pipes { stdin: u64, stdout: u64, stderr: u64, exit: u64 },
}

/// Running one command: whether the agent is forwarded to it, and how many
/// environment variables it gets.
#[derive(Debug, Clone, Copy, PartialEq, Eq, Structural)]
pub struct ExecRun {
    pub forward: bool,
    pub env_count: usize,
    pub stage: ExecStage,
}

impl ExecRun {
    pub open spec fn at(self, stage: ExecStage) -> ExecRun {
        ExecRun { stage, ..self }
    }

    /// On to the environment variable at `index`, or to the command.
    pub open spec fn env_from(self, index: int) -> (ExecRun, ExecAction) {
        if index < self.env_count {
            (self.at(ExecStage::Env { index: index as usize }), ExecAction::RequestEnv(index as usize))
        } else {
            (self.at(ExecStage::RequestExec), ExecAction::RequestExec)
        }
    }

    /// The next state and action. A variable that the server does not accept,
    /// and a refused forwarding, do not stop the command.
    pub open spec fn next(self, s: SessionView, event: ExecEvent) -> (ExecRun, ExecAction) {
        match self.stage {
            ExecStage::OpenSession => match event {
                ExecEvent::Failed(e) => (self.at(ExecStage::Finished), ExecAction::Fail(e)),
                _ => if self.forward {
                    (self.at(ExecStage::Forwarding), ExecAction::RequestForwarding)
                } else {
                    self.env_from(0)
                },
            },
            ExecStage::Forwarding => self.env_from(0),
            ExecStage::Env { index } => self.env_from(index + 1),
            ExecStage::RequestExec => match event {
                ExecEvent::Failed(e) => (self.at(ExecStage::Finished), ExecAction::Fail(e)),
                _ => (
                    self.at(ExecStage::Pipes { channel_id: s.next_channel_id }),
                    ExecAction::MakePipes,
                ),
            },
            ExecStage::Pipes { channel_id } => match event {
                ExecEvent::Failed(e) => (self.at(ExecStage::Finished), ExecAction::Fail(e)),
                _ => (self.at(ExecStage::Finished), ExecAction::Done(channel_id)),
            },
            ExecStage::Finished => (self, ExecAction::OpenSession),
        }
    }

    /// What the step changes of the session: the id is spoken for once the
    /// command is running, and the channel is there once it has its pipes.
    pub open spec fn session_after(self, s: SessionView, event: ExecEvent) -> SessionView {
        match (self.stage, event) {
            (ExecStage::RequestExec, ExecEvent::Succeeded) => SessionView {
                next_channel_id: (s.next_channel_id + 1) as usize,
                ..s
            },
            (
                ExecStage::Pipes { channel_id },
                ExecEvent::Pipes { stdin, stdout, stderr, exit },
            ) => SessionView {
                channels: s.channels.push(exec_channel(channel_id, stdin, stdout, stderr, exit)),
                ..s
            },
            _ => s,
        }
    }

    pub open spec fn expects(self, event: ExecEvent) -> bool {
        match self.stage {
            ExecStage::Finished => false,
            ExecStage::Pipes { .. } => !(event is Succeeded),
            _ => !(event is Pipes),
        }
    }

    /// The id under which the channel will stand was handed out for it.
    pub open spec fn wf(self, inner: SessionInner) -> bool {
        match self.stage {
            ExecStage::Env { index } => index < self.env_count,
            ExecStage::Pipes { channel_id } => inner.wf_reserved(channel_id),
            _ => true,
        }
    }

    /// Begins to run a command with `env_count` environment variables.
    pub fn start(inner: &SessionInner, ssh_auth_sock: Option<String>, env_count: usize) -> (r: (
        ExecRun,
        ExecAction,
    ))
        requires
            inner.wf(),
        ensures
            r.0 == (ExecRun {
                forward: agent_forwarded(inner@.config, ssh_auth_sock),
                env_count,
                stage: ExecStage::OpenSession,
            }),
            r.1 is OpenSession,
    {
        let forward = inner.forwards_agent(ssh_auth_sock);
        (ExecRun { forward, env_count, stage: ExecStage::OpenSession }, ExecAction::OpenSession)
    }

    fn take_env(&mut self, index: usize) -> (action: ExecAction)
        ensures
            (*final(self), action) == old(self).env_from(index as int),
    {
        if index < self.env_count {
            self.stage = ExecStage::Env { index };
            ExecAction::RequestEnv(index)
        } else {
            self.stage = ExecStage::RequestExec;
            ExecAction::RequestExec
        }
    }

    fn fail(&mut self, e: String) -> (action: ExecAction)
        ensures
            (*final(self), action) == (old(self).at(ExecStage::Finished), ExecAction::Fail(e)),
    {
        self.stage = ExecStage::Finished;
        ExecAction::Fail(e)
    }

    /// Takes what came of the last action and names the next one.
    pub fn step(&mut self, inner: &mut SessionInner, event: ExecEvent) -> (action: ExecAction)
        requires
            old(inner).wf(),
            old(self).wf(*old(inner)),
            old(self).expects(event),
            old(inner)@.next_channel_id < usize::MAX,
        ensures
            (*final(self), action) == old(self).next(old(inner)@, event),
            final(inner)@ == old(self).session_after(old(inner)@, event),
            final(inner).wf(),
            final(self).wf(*final(inner)),
    {
        match self.stage {
            ExecStage::OpenSession => match event {
                ExecEvent::Failed(e) => self.fail(e),
                _ => if self.forward {
                    self.stage = ExecStage::Forwarding;
                    ExecAction::RequestForwarding
                } else {
                    self.take_env(0)
                },
            },
            ExecStage::Forwarding => self.take_env(0),
            ExecStage::Env { index } => self.take_env(index + 1),
            ExecStage::RequestExec => match event {
                ExecEvent::Failed(e) => self.fail(e),
                _ => {
                    let channel_id: usize = inner.reserve_channel_id();
                    self.stage = ExecStage::Pipes { channel_id };
                    proof {
                        inner.lemma_reserved(channel_id);
                    }
                    ExecAction::MakePipes
                },
            },
            ExecStage::Pipes { channel_id } => match event {
                ExecEvent::Failed(e) => self.fail(e),
                ExecEvent::Pipes { stdin, stdout, stderr, exit } => {
                    inner.insert_channel(
                        channel_id,
                        Some(exit),
                        Some(stdin),
                        Some(stdout),
                        Some(stderr),
                    );
                    self.stage = ExecStage::Finished;
                    ExecAction::Done(channel_id)
                },
                ExecEvent::Succeeded => ExecAction::MakePipes,
            },
            ExecStage::Finished => ExecAction::OpenSession,
        }
    }
}

/// The channel of a running command.
pub open spec fn exec_channel(
    channel_id: ChannelId,
    stdin: u64,
    stdout: u64,
    stderr: u64,
    exit: u64,
) -> ChannelView {
    ChannelView {
        channel_id,
        exit: Some(exit),
        exited: false,
        stdin: crate::channels::DescriptorView::fresh(Some(stdin)),
        stdout: crate::channels::DescriptorView::fresh(Some(stdout)),
        stderr: crate::channels::DescriptorView::fresh(Some(stderr)),
    }
}

/// Where a forwarded agent channel is connected to, if anywhere.
#[derive(Debug)]
pub enum AgentTarget {
    Connect(String),
    NoIdentityAgent,
}

/// What is said where there is no agent to connect to.
pub const NO_IDENTITY_AGENT: &'static str = "no identity agent in config";

/// Where the next forwarded agent channel is connected to.
pub fn agent_target(inner: &SessionInner, ssh_auth_sock: Option<String>) -> (r: AgentTarget)
    requires
        inner.wf(),
    ensures
        match r {
            AgentTarget::Connect(path) => Some(path@) == agent_path(inner@.config, ssh_auth_sock),
            AgentTarget::NoIdentityAgent => agent_path(inner@.config, ssh_auth_sock) is None,
        },
{
    match inner.identity_agent(ssh_auth_sock) {
        Some(path) => AgentTarget::Connect(path),
        None => AgentTarget::NoIdentityAgent,
    }
}

/// The session with one more agent channel.
pub open spec fn with_agent(s: SessionView, read: u64, write: u64) -> SessionView {
    s.with_channel(None, Some(read), Some(write), None)
}

/// Takes over a forwarded agent channel that was connected to the agent. What
/// the agent writes feeds the remote side, and what comes back goes to the
/// agent; there is no third stream and no exit status.
pub fn connect_agent_channel(inner: &mut SessionInner, read: u64, write: u64) -> (id: ChannelId)
    requires
        old(inner).wf(),
        old(inner)@.next_channel_id < usize::MAX,
    ensures
        final(inner).wf(),
        id == old(inner)@.next_channel_id,
        final(inner)@ == old(inner)@.with_channel(None, Some(read), Some(write), None),
        final(inner)@ == with_agent(old(inner)@, read, write),
{
    inner.add_channel(None, Some(read), Some(write), None)
}

/// A command gets a channel under an id that no channel has, and that is not
/// handed out again.
pub proof fn exec_gets_a_fresh_channel(r: ExecRun, s: SessionView)
    requires
        s.wf(),
        s.next_channel_id < usize::MAX,
        r.stage is RequestExec,
    ensures
        r.next(s, ExecEvent::Succeeded).0.stage == (ExecStage::Pipes {
            channel_id: s.next_channel_id,
        }),
        forall|i: int|
            0 <= i < s.channels.len() ==> (#[trigger] s.channels[i]).channel_id
                != s.next_channel_id,
        r.session_after(s, ExecEvent::Succeeded).next_channel_id > s.next_channel_id,
{
}

/// Refusals of the environment or of agent forwarding never fail a command.
pub proof fn refused_extras_do_not_fail_a_command(r: ExecRun, s: SessionView, event: ExecEvent)
    requires
        r.stage is Forwarding || r.stage is Env,
    ensures
        !(r.next(s, event).1 is Fail),
        r.next(s, event) == r.next(s, ExecEvent::Succeeded),
{
}

/// A command is run in its order: the session is opened, the agent is forwarded
/// where it is to be, the variables are set one after the other from the first to
/// the last, the command is started and its pipes are made.
pub proof fn a_command_is_run_in_order(r: ExecRun, s: SessionView)
    requires
        r.stage is Env ==> r.stage->Env_index < r.env_count,
    ensures
        ({
            let (after, action) = r.next(s, ExecEvent::Succeeded);
            let vars_from: int = match r.stage {
                ExecStage::Env { index } => index + 1,
                _ => 0,
            };
            let setting = (r.stage is OpenSession && !r.forward) || r.stage is Forwarding
                || r.stage is Env;
            &&& r.stage is OpenSession && r.forward ==> action is RequestForwarding
            &&& setting && vars_from < r.env_count ==> action == ExecAction::RequestEnv(
                vars_from as usize,
            )
            &&& setting && vars_from == r.env_count ==> action is RequestExec
            &&& r.stage is RequestExec ==> action is MakePipes
            &&& after.forward == r.forward && after.env_count == r.env_count
        }),
{
}

/// A command fails where its channel cannot be opened, the command cannot be
/// started or its pipes cannot be made, with the error of that; the session is
/// left as it was.
pub proof fn a_command_fails_with_its_error(r: ExecRun, s: SessionView, e: String)
    ensures
        r.stage is OpenSession || r.stage is RequestExec || r.stage is Pipes ==> r.next(
            s,
            ExecEvent::Failed(e),
        ).1 == ExecAction::Fail(e) && r.next(s, ExecEvent::Failed(e)).0.stage is Finished,
        r.session_after(s, ExecEvent::Failed(e)) == s,
{
}

/// The channel of a command stands under the id that the command is told, at the
/// end of the list, with each pipe in its own place, nothing in its streams, and
/// its exit status still to come. No other channel is touched, and no other step
/// adds one.
pub proof fn a_command_gets_its_pipes(
    r: ExecRun,
    s: SessionView,
    stdin: u64,
    stdout: u64,
    stderr: u64,
    exit: u64,
)
    requires
        r.stage is Pipes,
    ensures
        ({
            let event = ExecEvent::Pipes { stdin, stdout, stderr, exit };
            let after = r.session_after(s, event);
            let c = after.channels.last();
            &&& r.next(s, event).1 == ExecAction::Done(c.channel_id)
            &&& c.channel_id == r.stage->Pipes_channel_id
            &&& after.channels.drop_last() == s.channels
            &&& after.channels.len() == s.channels.len() + 1
            &&& c.stdin.fd == Some(stdin) && c.stdout.fd == Some(stdout) && c.stderr.fd == Some(
                stderr,
            )
            &&& c.stdin.buf.len() == 0 && c.stdout.buf.len() == 0 && c.stderr.buf.len() == 0
            &&& c.exit == Some(exit) && !c.exited
            &&& after.next_channel_id == s.next_channel_id
        }),
{
}

/// Until its pipes are there a command changes nothing of the session but the id
/// that is spoken for once it is started.
pub proof fn starting_a_command_only_takes_an_id(r: ExecRun, s: SessionView, event: ExecEvent)
    requires
        r.expects(event),
        !(r.stage is Pipes),
        s.next_channel_id < usize::MAX,
    ensures
        ({
            let after = r.session_after(s, event);
            &&& after.channels == s.channels
            &&& after.next_channel_id == s.next_channel_id + if r.stage is RequestExec
                && event is Succeeded {
                1int
            } else {
                0int
            }
            &&& after == (SessionView { next_channel_id: after.next_channel_id, ..s })
        }),
{
}

/// What is read from the agent feeds the remote side, and what comes back is
/// written to the agent; the channel has no third stream, nobody waits for an
/// exit status of it, and the other channels stay.
pub proof fn agents_are_connected_both_ways(s: SessionView, read: u64, write: u64)
    requires
        s.next_channel_id < usize::MAX,
    ensures
        ({
            let after = with_agent(s, read, write);
            let c = after.channels.last();
            &&& after.channels.len() == s.channels.len() + 1
            &&& after.channels.drop_last() == s.channels
            &&& c.channel_id == s.next_channel_id && after.next_channel_id == s.next_channel_id + 1
            &&& c.stdin.fd == Some(read) && c.stdout.fd == Some(write) && c.stderr.fd is None
            &&& c.exit is None && !c.exited
        }),
{
}

/// Each action is followed by word of whether it succeeded, the making of pipes
/// by the pipes or their failure, and the end by nothing.
pub proof fn each_exec_action_has_its_outcomes(
    r: ExecRun,
    s: SessionView,
    event: ExecEvent,
    then: ExecEvent,
)
    requires
        r.expects(event),
    ensures
        r.next(s, event).0.expects(then) <==> match r.next(s, event).1 {
            ExecAction::MakePipes => then is Pipes || then is Failed,
            ExecAction::Done(_) => false,
            ExecAction::Fail(_) => false,
            _ => then is Succeeded || then is Failed,
        },
{
}

/// A command for which the agent is forwarded goes on like any other once that
/// was asked for, whether or not the server agreed.
pub proof fn forwarding_comes_before_the_rest(r: ExecRun, s: SessionView, event: ExecEvent)
    requires
        r.stage is OpenSession,
    ensures
        ({
            let with_agent = ExecRun { forward: true, ..r };
            let without = ExecRun { forward: false, ..r };
            let (asked, action) = with_agent.next(s, ExecEvent::Succeeded);
            &&& action is RequestForwarding
            &&& asked.next(s, event).1 == without.next(s, ExecEvent::Succeeded).1
            &&& asked.next(s, event).0.stage == without.next(s, ExecEvent::Succeeded).0.stage
            &&& asked.session_after(s, event) == s
        }),
{
}

} // verus!
