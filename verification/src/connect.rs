//! Reaching a server: how long each address may take, how often a socket is
//! tried, when a server is started, and when credentials are fetched over ssh.

use crate::config_map::ConfigMap;
use crate::text::{
    exact_duration, exact_duration_text, join2, join3, split_at_char, split_text, text_of_option,
    texts,
};
use crate::tls::SshParameters;
use vstd::prelude::*;

verus! {

/// One millisecond in nanoseconds, the shortest slice of a budget.
pub const SHORTEST_SLICE: u128 = 1_000_000;

/// How many addresses a budget is shared between, kept between one and the
/// largest divisor.
pub open spec fn shares(remaining_addrs: nat) -> nat {
    if remaining_addrs == 0 {
        1
    } else if remaining_addrs > u32::MAX {
        u32::MAX as nat
    } else {
        remaining_addrs
    }
}

/// An equal share of what is left, and at least a millisecond.
pub open spec fn budget_slice(left: nat, remaining_addrs: nat) -> nat {
    let share = left / shares(remaining_addrs);
    if share >= SHORTEST_SLICE {
        share
    } else {
        SHORTEST_SLICE as nat
    }
}

/// How long a single address may take, given the time `left` in the overall
/// budget and how many addresses (including this one) are still to be tried.
/// Times are in nanoseconds.
pub fn connect_budget_slice(left: u128, remaining_addrs: usize) -> (slice: u128)
    ensures
        slice == budget_slice(left as nat, remaining_addrs as nat),
        slice > 0,
{
    let divisor: u128 = if remaining_addrs == 0 {
        1
    } else if remaining_addrs as u128 > u32::MAX as u128 {
        u32::MAX as u128
    } else {
        remaining_addrs as u128
    };
    let share: u128 = left / divisor;
    if share >= SHORTEST_SLICE {
        share
    } else {
        SHORTEST_SLICE
    }
}

/// How long all attempts take at worst, each using up its slice.
pub open spec fn worst_total(left: nat, addrs: nat) -> nat
    decreases addrs,
{
    if addrs == 0 || left == 0 {
        0
    } else {
        let slice = budget_slice(left, addrs);
        let rest = if slice <= left {
            (left - slice) as nat
        } else {
            0
        };
        slice + worst_total(rest, (addrs - 1) as nat)
    }
}

/// However many addresses there are, trying them all stays within the budget,
/// give or take the shortest slice.
pub proof fn attempts_stay_within_the_budget(left: nat, addrs: nat)
    ensures
        worst_total(left, addrs) <= left + SHORTEST_SLICE,
    decreases addrs,
{
    if addrs > 0 && left > 0 {
        let slice = budget_slice(left, addrs);
        let rest = if slice <= left {
            (left - slice) as nat
        } else {
            0
        };
        attempts_stay_within_the_budget(rest, (addrs - 1) as nat);
        if slice > left {
            assert(worst_total(0, (addrs - 1) as nat) == 0);
            assert(left / shares(addrs) <= left) by {
                vstd::arithmetic::div_mod::lemma_div_is_ordered_by_denominator(
                    left as int,
                    1,
                    shares(addrs) as int,
                );
            }
            assert(slice == SHORTEST_SLICE);
        }
    }
}

/// An address never takes so much that the others could not have as much: the
/// share of each of `n` addresses fits into what is left `n` times over.
pub proof fn slices_leave_room_for_the_rest(left: nat, addrs: nat)
    requires
        0 < addrs <= u32::MAX,
        left >= addrs * SHORTEST_SLICE,
    ensures
        budget_slice(left, addrs) * addrs <= left,
{
    let share = left / addrs;
    assert(share * addrs <= left) by (nonlinear_arith)
        requires
            addrs > 0,
            share == left / addrs,
    ;
    assert(share >= SHORTEST_SLICE) by (nonlinear_arith)
        requires
            addrs > 0,
            left >= addrs * SHORTEST_SLICE,
            share == left / addrs,
    ;
}

/// What connecting came to, or has to do next.
#[derive(Debug, Clone, Copy, PartialEq, Eq, Structural)]
pub enum TcpAction {
    /// Try the address at `index` for so many nanoseconds.
    Try { index: usize, slice: u128 },
    /// The address at `index` is connected.
    Connected { index: usize },
    /// Report the error of the address at `index`, the last one tried.
    ReportError { index: usize },
    /// The budget ran out before any address was tried.
    TimedOut,
    /// The name resolved to no address.
    NoAddresses,
}

impl TcpAction {
    pub open spec fn text(self, budget: u128, address: Seq<char>) -> Option<Seq<char>> {
        match self {
            TcpAction::TimedOut => Some(
                "timed out after "@ + exact_duration(budget as nat) + " connecting to "@ + address,
            ),
            TcpAction::NoAddresses => Some(address + " resolved to no addresses"@),
            _ => None,
        }
    }

    /// What is said of the end, of the given budget in nanoseconds and address,
    /// where it is an error of its own.
    pub fn failure(self, budget: u128, address: &str) -> (r: Option<String>)
        ensures
            text_of_option(r) == self.text(budget, address@),
    {
        match self {
            TcpAction::TimedOut => {
                let mut s = "timed out after ".to_owned();
                s.append(exact_duration_text(budget).as_str());
                s.append(" connecting to ");
                s.append(address);
                Some(s)
            },
            TcpAction::NoAddresses => {
                let mut s = address.to_owned();
                s.append(" resolved to no addresses");
                Some(s)
            },
            _ => None,
        }
    }
}

/// What is said to have been done when a server could not be reached.
pub fn connecting_context(target: &str) -> (s: String)
    ensures
        s@ == "connecting to "@ + target@,
{
    let mut s = "connecting to ".to_owned();
    s.append(target);
    s
}

/// What the user is shown before a command is run.
pub fn running_message(command: &str) -> (s: String)
    ensures
        s@ == "Running: "@ + command@ + "\n"@,
{
    join3("Running: ", command, "\n")
}

/// What is said to have been done when a name could not be resolved.
pub fn resolving_context(address: &str) -> (s: String)
    ensures
        s@ == "resolving "@ + address@,
{
    let mut s = "resolving ".to_owned();
    s.append(address);
    s
}

/// How far connecting to one of `addrs` addresses has come.
#[derive(Debug, Clone, Copy, PartialEq, Eq, Structural)]
pub struct TcpState {
    pub addrs: usize,
    pub budget: u128,
    /// How many addresses were tried, all of them without success.
    pub tried: usize,
}

impl TcpState {
    pub open spec fn wf(self) -> bool {
        self.tried <= self.addrs
    }

    pub open spec fn left(self, elapsed: u128) -> nat {
        if self.budget >= elapsed {
            (self.budget - elapsed) as nat
        } else {
            0
        }
    }

    /// What follows after `elapsed` nanoseconds.
    pub open spec fn following(self, elapsed: u128) -> TcpAction {
        if self.addrs == 0 {
            TcpAction::NoAddresses
        } else if self.tried < self.addrs && self.left(elapsed) > 0 {
            TcpAction::Try {
                index: self.tried,
                slice: budget_slice(
                    self.left(elapsed),
                    (self.addrs - self.tried) as nat,
                ) as u128,
            }
        } else if self.tried > 0 {
            TcpAction::ReportError { index: (self.tried - 1) as usize }
        } else {
            TcpAction::TimedOut
        }
    }

    fn next_attempt(&self, elapsed: u128) -> (action: TcpAction)
        requires
            self.wf(),
        ensures
            action == self.following(elapsed),
    {
        if self.addrs == 0 {
            return TcpAction::NoAddresses;
        }
        let left: u128 = self.budget.saturating_sub(elapsed);
        if self.tried < self.addrs && left > 0 {
            let slice: u128 = connect_budget_slice(left, self.addrs - self.tried);
            TcpAction::Try { index: self.tried, slice }
        } else if self.tried > 0 {
            TcpAction::ReportError { index: self.tried - 1 }
        } else {
            TcpAction::TimedOut
        }
    }
}

/// Connecting to one of several addresses within a budget, in order.
#[derive(Debug, Clone, Copy, PartialEq, Eq, Structural)]
pub struct TcpConnect {
    state: TcpState,
}

impl View for TcpConnect {
    type V = TcpState;

    closed spec fn view(&self) -> TcpState {
        self.state
    }
}

impl TcpConnect {
    #[verifier::type_invariant]
    spec fn inv(self) -> bool {
        self.state.wf()
    }

    /// Begins to connect.
    pub fn start(addrs: usize, budget: u128, elapsed: u128) -> (r: (TcpConnect, TcpAction))
        ensures
            r.0@ == (TcpState { addrs, budget, tried: 0 }),
            r.1 == r.0@.following(elapsed),
    {
        let state = TcpState { addrs, budget, tried: 0 };
        let action = state.next_attempt(elapsed);
        (TcpConnect { state }, action)
    }

    /// The address just tried was reached, or not; `elapsed` is the time since
    /// the start.
    pub fn attempted(&mut self, reached: bool, elapsed: u128) -> (action: TcpAction)
        requires
            old(self)@.tried < old(self)@.addrs,
        ensures
            final(self)@.wf(),
            reached ==> final(self)@ == old(self)@ && action == (TcpAction::Connected {
                index: old(self)@.tried,
            }),
            !reached ==> final(self)@ == (TcpState {
                tried: (old(self)@.tried + 1) as usize,
                ..old(self)@
            }) && action == final(self)@.following(elapsed),
    {
        proof {
            use_type_invariant(&*self);
        }
        if reached {
            return TcpAction::Connected { index: self.state.tried };
        }
        let state = TcpState { tried: self.state.tried + 1, ..self.state };
        self.state = state;
        state.next_attempt(elapsed)
    }
}

/// A budget that is spent before any address was tried makes no attempt, and is
/// reported as a timeout.
pub proof fn a_spent_budget_tries_nothing(addrs: usize, budget: u128, elapsed: u128)
    requires
        addrs > 0,
        budget <= elapsed,
    ensures
        (TcpState { addrs, budget, tried: 0 }).following(elapsed) is TimedOut,
{
}

/// A refusal is reported as a refusal: once an address was tried, what is
/// reported is its error and never a timeout.
pub proof fn a_refusal_is_not_a_timeout(c: TcpState, elapsed: u128)
    requires
        c.wf(),
    ensures
        c.tried > 0 ==> !(c.following(elapsed) is TimedOut),
        c.following(elapsed) is TimedOut ==> c.tried == 0 && c.left(elapsed) == 0,
        c.following(elapsed) matches TcpAction::ReportError { index } ==> index == c.tried - 1,
        c.following(elapsed) matches TcpAction::Try { slice, .. } ==> slice > 0,
{
    if c.following(elapsed) is Try {
        let left = c.left(elapsed);
        let n = (c.addrs - c.tried) as nat;
        assert(left / shares(n) <= left) by {
            vstd::arithmetic::div_mod::lemma_div_is_ordered_by_denominator(
                left as int,
                1,
                shares(n) as int,
            );
        }
    }
}

/// The part of `host:port` that names the host: everything up to the first
/// colon.
pub fn host_part(address: &str) -> (s: String)
    ensures
        s@ == split_at_char(address@, ':')[0],
{
    let parts = split_text(address, ':');
    assert(texts(parts@)[0] == parts@[0]@);
    parts[0].clone()
}

/// The options of the one-shot bootstrap session, from those that the host has
/// anyway: the caller's options go over them, and the user and port of the
/// target over both.
pub open spec fn bootstrap_options(
    for_host: Map<Seq<char>, Seq<char>>,
    username: Option<Seq<char>>,
    host_and_port: Seq<char>,
    ssh_option: Map<Seq<char>, Seq<char>>,
) -> Map<Seq<char>, Seq<char>> {
    let fields = split_at_char(host_and_port, ':');
    let with_options = for_host.union_prefer_right(ssh_option);
    let with_user = match username {
        Some(user) => with_options.insert("user"@, user),
        None => with_options,
    };
    if fields.len() > 1 {
        with_user.insert("port"@, fields[1])
    } else {
        with_user
    }
}

/// Builds the options of the one-shot bootstrap session. `for_host` is what the
/// ssh configuration gives for the host of the target.
pub fn bootstrap_ssh_config(
    for_host: ConfigMap,
    ssh_params: &SshParameters,
    ssh_option: &ConfigMap,
) -> (r: ConfigMap)
    requires
        for_host.wf(),
        ssh_option.wf(),
    ensures
        r.wf(),
        r@ == bootstrap_options(
            for_host@,
            text_of_option(ssh_params.username),
            ssh_params.host_and_port@,
            ssh_option@,
        ),
{
    let fields = split_text(ssh_params.host_and_port.as_str(), ':');
    assert(texts(fields@).len() == fields@.len());
    let mut config = for_host;
    config.extend(ssh_option);
    if let Some(username) = &ssh_params.username {
        config.insert("user", username.as_str());
    }
    if fields.len() > 1 {
        assert(texts(fields@)[1] == fields@[1]@);
        config.insert("port", fields[1].as_str());
    }
    config
}

/// Without options of the caller the bootstrap session is what the host has
/// anyway, with the target's user and port.
pub proof fn empty_options_change_nothing(
    for_host: Map<Seq<char>, Seq<char>>,
    username: Seq<char>,
    host: Seq<char>,
    port: Seq<char>,
    host_and_port: Seq<char>,
)
    requires
        split_at_char(host_and_port, ':') == seq![host, port],
    ensures
        bootstrap_options(for_host, Some(username), host_and_port, Map::empty())
            == for_host.insert("user"@, username).insert("port"@, port),
{
    assert(for_host.union_prefer_right(Map::empty()) =~= for_host);
}

/// The target that the user typed decides who logs in and on which port,
/// whatever the caller's options say; a target without a user leaves the user
/// to them; and every other option of the caller goes over the host's own.
pub proof fn the_target_wins(
    for_host: Map<Seq<char>, Seq<char>>,
    username: Option<Seq<char>>,
    host_and_port: Seq<char>,
    ssh_option: Map<Seq<char>, Seq<char>>,
    name: Seq<char>,
)
    ensures
        ({
            let built = bootstrap_options(for_host, username, host_and_port, ssh_option);
            let fields = split_at_char(host_and_port, ':');
            &&& username matches Some(user) ==> built.dom().contains("user"@) && built["user"@]
                == user
            &&& fields.len() > 1 ==> built.dom().contains("port"@) && built["port"@] == fields[1]
            &&& username is None && ssh_option.dom().contains("user"@) ==> built["user"@]
                == ssh_option["user"@]
            &&& ssh_option.dom().contains(name) && name != "user"@ && name != "port"@
                ==> built.dom().contains(name) && built[name] == ssh_option[name]
            &&& !ssh_option.dom().contains(name) && name != "user"@ && name != "port"@ ==> (
            built.dom().contains(name) <==> for_host.dom().contains(name))
        }),
{
    reveal_strlit("user");
    reveal_strlit("port");
    assert("user"@[0] != "port"@[0]);
}

/// What connecting to a unix domain socket has to do next.
#[derive(Debug, Clone, Copy, PartialEq, Eq, Structural)]
pub enum RetryAction {
    Sleep { ms: u64 },
    ConnectSocket,
    SpawnProxy,
    /// See, ten milliseconds on, whether the proxy is still running.
    PollProxy,
    Connected,
    /// Report the error that came last.
    Fail,
}

/// What came of the last action.
#[derive(Debug, Clone, Copy, PartialEq, Eq, Structural)]
pub enum RetryEvent {
    Slept,
    /// The socket was connected to, or not.
    SocketTried(bool),
    /// The proxy was started, or not.
    Spawned(bool),
    /// The proxy is still running, or it is not, or that cannot be told.
    Polled(bool),
}

#[derive(Debug, Clone, Copy, PartialEq, Eq, Structural)]
pub enum RetryStage {
    /// Waiting for a server that was just started.
    Settling,
    Pausing,
    Connecting,
    Spawning,
    /// So many more looks at the proxy.
    Polling { looks: u64 },
    Finished,
}

/// How far connecting to a unix domain socket, or through a proxy program, has
/// come.
#[derive(Debug, Clone, Copy, PartialEq, Eq, Structural)]
pub struct RetryState {
    pub proxy: bool,
    pub max_attempts: u64,
    /// The attempt being made, counted from zero.
    pub attempt: u64,
    pub stage: RetryStage,
}

/// How often a proxy is looked at before it counts as running.
pub const PROXY_LOOKS: u64 = 5;

impl RetryState {
    pub open spec fn at(self, stage: RetryStage) -> RetryState {
        RetryState { stage, ..self }
    }

    pub open spec fn connect(self) -> (RetryState, RetryAction) {
        if self.proxy {
            (self.at(RetryStage::Spawning), RetryAction::SpawnProxy)
        } else {
            (self.at(RetryStage::Connecting), RetryAction::ConnectSocket)
        }
    }

    /// After a failed attempt: another one, a little later, or the end.
    pub open spec fn retry(self) -> (RetryState, RetryAction) {
        if self.attempt + 1 < self.max_attempts {
            (
                RetryState {
                    attempt: (self.attempt + 1) as u64,
                    stage: RetryStage::Pausing,
                    ..self
                },
                RetryAction::Sleep { ms: ((self.attempt + 1) * 50) as u64 },
            )
        } else {
            (self.at(RetryStage::Finished), RetryAction::Fail)
        }
    }

    /// The next state and action. Whether a proxy counts as running is decided
    /// by the last look at it.
    pub open spec fn next(self, event: RetryEvent) -> (RetryState, RetryAction) {
        match event {
            RetryEvent::Slept => self.connect(),
            RetryEvent::SocketTried(connected) => if connected {
                (self.at(RetryStage::Finished), RetryAction::Connected)
            } else {
                self.retry()
            },
            RetryEvent::Spawned(started) => if started {
                (
                    self.at(RetryStage::Polling { looks: (PROXY_LOOKS - 1) as u64 }),
                    RetryAction::PollProxy,
                )
            } else {
                (self.at(RetryStage::Finished), RetryAction::Fail)
            },
            RetryEvent::Polled(running) => {
                let looks = self.stage->looks;
                if looks > 0 {
                    (
                        self.at(RetryStage::Polling { looks: (looks - 1) as u64 }),
                        RetryAction::PollProxy,
                    )
                } else if running {
                    (self.at(RetryStage::Finished), RetryAction::Connected)
                } else {
                    self.retry()
                }
            },
        }
    }

    pub open spec fn expects(self, event: RetryEvent) -> bool {
        match event {
            RetryEvent::Slept => self.stage is Settling || self.stage is Pausing,
            RetryEvent::SocketTried(_) => self.stage is Connecting,
            RetryEvent::Spawned(_) => self.stage is Spawning,
            RetryEvent::Polled(_) => self.stage is Polling,
        }
    }

    pub open spec fn wf(self) -> bool {
        self.attempt < self.max_attempts && self.max_attempts * 50 <= u64::MAX
    }

    fn take_connect(&mut self) -> (action: RetryAction)
        ensures
            (*final(self), action) == old(self).connect(),
    {
        if self.proxy {
            self.stage = RetryStage::Spawning;
            RetryAction::SpawnProxy
        } else {
            self.stage = RetryStage::Connecting;
            RetryAction::ConnectSocket
        }
    }

    fn take_retry(&mut self) -> (action: RetryAction)
        requires
            old(self).wf(),
        ensures
            (*final(self), action) == old(self).retry(),
            final(self).wf(),
    {
        let next: u64 = self.attempt + 1;
        if next < self.max_attempts {
            self.attempt = next;
            self.stage = RetryStage::Pausing;
            RetryAction::Sleep { ms: next * 50 }
        } else {
            self.stage = RetryStage::Finished;
            RetryAction::Fail
        }
    }

    fn advance(&mut self, event: RetryEvent) -> (action: RetryAction)
        requires
            old(self).wf(),
            old(self).expects(event),
        ensures
            final(self).wf(),
            (*final(self), action) == old(self).next(event),
    {
        match event {
            RetryEvent::Slept => self.take_connect(),
            RetryEvent::SocketTried(connected) => if connected {
                self.stage = RetryStage::Finished;
                RetryAction::Connected
            } else {
                self.take_retry()
            },
            RetryEvent::Spawned(started) => if started {
                self.stage = RetryStage::Polling { looks: PROXY_LOOKS - 1 };
                RetryAction::PollProxy
            } else {
                self.stage = RetryStage::Finished;
                RetryAction::Fail
            },
            RetryEvent::Polled(running) => {
                if let RetryStage::Polling { looks } = self.stage {
                    if looks > 0 {
                        self.stage = RetryStage::Polling { looks: looks - 1 };
                        return RetryAction::PollProxy;
                    }
                }
                if running {
                    self.stage = RetryStage::Finished;
                    RetryAction::Connected
                } else {
                    self.take_retry()
                }
            },
        }
    }
}

/// Connecting to a unix domain socket, or through a proxy program.
#[derive(Debug, Clone, Copy, PartialEq, Eq, Structural)]
pub struct UnixRetry {
    state: RetryState,
}

impl View for UnixRetry {
    type V = RetryState;

    closed spec fn view(&self) -> RetryState {
        self.state
    }
}

/// How often a socket is tried where nothing is said.
pub const DEFAULT_ATTEMPTS: u64 = 10;

/// The most attempts that can be made: the wait before each is counted in 64
/// bits.
pub const MOST_ATTEMPTS: u64 = 0x51e_b851_eb85_1eb8;

impl RetryState {
    /// How connecting begins.
    pub open spec fn begun(proxy: bool, just_spawned: bool, max_attempts: Option<u64>) -> (
        RetryState,
        RetryAction,
    ) {
        let first = RetryState {
            proxy,
            max_attempts: match max_attempts {
                Some(n) => n,
                None => DEFAULT_ATTEMPTS,
            },
            attempt: 0,
            stage: RetryStage::Settling,
        };
        if just_spawned {
            (first, RetryAction::Sleep { ms: 200 })
        } else {
            first.connect()
        }
    }
}

impl UnixRetry {
    #[verifier::type_invariant]
    spec fn inv(self) -> bool {
        self.state.wf()
    }

    /// Begins to connect, at most `max_attempts` times and ten times by
    /// default. A server that was just started is given time first.
    pub fn start(proxy: bool, just_spawned: bool, max_attempts: Option<u64>) -> (r: (
        UnixRetry,
        RetryAction,
    ))
        requires
            max_attempts matches Some(n) ==> 0 < n <= MOST_ATTEMPTS,
        ensures
            ({
                let first = RetryState {
                    proxy,
                    max_attempts: match max_attempts {
                        Some(n) => n,
                        None => DEFAULT_ATTEMPTS,
                    },
                    attempt: 0,
                    stage: RetryStage::Settling,
                };
                if just_spawned {
                    r.0@ == first && r.1 == (RetryAction::Sleep { ms: 200 })
                } else {
                    (r.0@, r.1) == first.connect()
                }
            }),
            (r.0@, r.1) == RetryState::begun(proxy, just_spawned, max_attempts),
    {
        let max_attempts: u64 = match max_attempts {
            Some(n) => n,
            None => DEFAULT_ATTEMPTS,
        };
        let mut state = RetryState {
            proxy,
            max_attempts,
            attempt: 0,
            stage: RetryStage::Settling,
        };
        if just_spawned {
            (UnixRetry { state }, RetryAction::Sleep { ms: 200 })
        } else {
            let action = state.take_connect();
            (UnixRetry { state }, action)
        }
    }

    /// Takes what came of the last action and names the next one.
    pub fn step(&mut self, event: RetryEvent) -> (action: RetryAction)
        requires
            old(self)@.expects(event),
        ensures
            final(self)@.wf(),
            (final(self)@, action) == old(self)@.next(event),
    {
        proof {
            use_type_invariant(&*self);
        }
        let mut state = self.state;
        let action = state.advance(event);
        self.state = state;
        action
    }

    /// What is said to have been done when the last attempt failed, where the
    /// socket at `path` was tried. A proxy that failed is reported by its own
    /// error.
    pub fn failure_context(&self, path: &str) -> (r: Option<String>)
        ensures
            text_of_option(r) == (if self@.proxy {
                None
            } else {
                Some("connecting to "@ + path@)
            }),
    {
        if self.state.proxy {
            None
        } else {
            Some(connecting_context(path))
        }
    }
}

/// What is said to have been done when a proxy could not be started, or not be
/// asked whether it is running; `command` is the command as it is shown.
pub fn proxy_context(command: &str) -> (s: String)
    ensures
        s@ == "spawning proxy command "@ + command@,
{
    join2("spawning proxy command ", command)
}

/// What is said of a proxy that is no longer running.
pub fn proxy_exited(command: &str, status: &str) -> (s: String)
    ensures
        s@ == command@ + " exited already with status "@ + status@,
{
    join3(command, " exited already with status ", status)
}

/// A single attempt is made where no more are asked for: a socket that cannot
/// be connected to is reported at once.
pub proof fn one_attempt_is_one_attempt(u: RetryState)
    requires
        !u.proxy,
        u.max_attempts == 1,
        u.attempt == 0,
    ensures
        u.connect().1 is ConnectSocket,
        u.connect().0.expects(RetryEvent::SocketTried(false)),
        u.connect().0.next(RetryEvent::SocketTried(false)).1 is Fail,
        u.connect().0.next(RetryEvent::SocketTried(true)).1 is Connected,
{
}

/// Connecting stops after the last attempt, waits longer before each one than
/// before the one ahead of it, and reports success only when the socket was
/// connected to or the proxy outlived every look at it.
pub proof fn unix_attempts_are_bounded(u: RetryState, event: RetryEvent)
    requires
        u.wf(),
        u.expects(event),
    ensures
        u.next(event).0.wf(),
        u.next(event).0.attempt > u.attempt ==> u.next(event).1 == (RetryAction::Sleep {
            ms: (u.next(event).0.attempt * 50) as u64,
        }),
        u.next(event).1 is Connected ==> event == RetryEvent::SocketTried(true) || event
            == RetryEvent::Polled(true),
        u.next(event).1 is Fail && u.attempt + 1 < u.max_attempts ==> event == RetryEvent::Spawned(
            false,
        ),
{
}

/// What connecting to a unix domain has to do next.
#[derive(Debug, Clone, Copy, PartialEq, Eq, Structural)]
pub enum UnixAction {
    /// Connect, as often as said, to a server that was just started or not.
    Connect { just_spawned: bool, max_attempts: Option<u64> },
    /// Tell the user, and start the server.
    StartServer,
    /// Set the timeouts and use the connection.
    Use,
    /// The target could not be reached.
    FailConnect,
    /// The server could not be started.
    FailStart,
    /// The target could not be reached although the server was started.
    FailAfterStart,
}

impl UnixAction {
    pub open spec fn text(self, target: Seq<char>, error: Seq<char>) -> Option<Seq<char>> {
        match self {
            UnixAction::FailConnect => Some("failed to connect to "@ + target + ": "@ + error),
            UnixAction::FailAfterStart => Some(
                "(after spawning server) failed to connect to "@ + target,
            ),
            _ => None,
        }
    }

    /// What is said of the end, where it is more than the error of the last
    /// action.
    pub fn failure(self, target: &str, error: &str) -> (r: Option<String>)
        ensures
            text_of_option(r) == self.text(target@, error@),
    {
        match self {
            UnixAction::FailConnect => {
                let mut s = "failed to connect to ".to_owned();
                s.append(target);
                s.append(": ");
                s.append(error);
                Some(s)
            },
            UnixAction::FailAfterStart => {
                let mut s = "(after spawning server) failed to connect to ".to_owned();
                s.append(target);
                Some(s)
            },
            _ => None,
        }
    }

    pub open spec fn shown_text(self, target: Seq<char>, error: Seq<char>) -> Option<Seq<char>> {
        match self {
            UnixAction::Connect { just_spawned: false, .. } => Some("Connect to "@ + target + "\n"@),
            UnixAction::StartServer => Some("Error: "@ + error + ".  Will try spawning server.\n"@),
            UnixAction::Use => Some("Connected!\n"@),
            _ => None,
        }
    }

    /// What the user is shown as an action begins, if anything; `error` is that
    /// of the attempt before.
    pub fn shown(self, target: &str, error: &str) -> (s: Option<String>)
        ensures
            text_of_option(s) == self.shown_text(target@, error@),
    {
        match self {
            UnixAction::Connect { just_spawned: false, .. } => Some(
                join3("Connect to ", target, "\n"),
            ),
            UnixAction::StartServer => Some(
                join3("Error: ", error, ".  Will try spawning server.\n"),
            ),
            UnixAction::Use => Some("Connected!\n".to_owned()),
            _ => None,
        }
    }
}

/// What is said to have been done when the server could not be started;
/// `command` is the command as it is shown.
pub fn start_context(command: &str) -> (s: String)
    ensures
        s@ == "while spawning "@ + command@,
{
    join2("while spawning ", command)
}

#[derive(Debug, Clone, Copy, PartialEq, Eq, Structural)]
pub enum UnixStage {
    First,
    Starting,
    Second,
    Finished,
}

/// Connecting to a unix domain: `may_start` says that a server may be started
/// for it.
#[derive(Debug, Clone, Copy, PartialEq, Eq, Structural)]
pub struct UnixConnect {
    pub may_start: bool,
    pub stage: UnixStage,
}

impl UnixConnect {
    pub open spec fn next(self, succeeded: bool) -> (UnixStage, UnixAction) {
        match self.stage {
            UnixStage::First => if succeeded {
                (UnixStage::Finished, UnixAction::Use)
            } else if self.may_start {
                (UnixStage::Starting, UnixAction::StartServer)
            } else {
                (UnixStage::Finished, UnixAction::FailConnect)
            },
            UnixStage::Starting => if succeeded {
                (
                    UnixStage::Second,
                    UnixAction::Connect { just_spawned: true, max_attempts: None },
                )
            } else {
                (UnixStage::Finished, UnixAction::FailStart)
            },
            _ => if succeeded {
                (UnixStage::Finished, UnixAction::Use)
            } else {
                (UnixStage::Finished, UnixAction::FailAfterStart)
            },
        }
    }

    /// Begins to connect. A server is only started the first time, and only
    /// where neither the caller nor the domain rules it out; a caller that
    /// rules it out gets a single attempt.
    pub fn start(initial: bool, no_auto_start: bool, no_serve_automatically: bool) -> (r: (
        UnixConnect,
        UnixAction,
    ))
        ensures
            r.0 == (UnixConnect {
                may_start: initial && !no_auto_start && !no_serve_automatically,
                stage: UnixStage::First,
            }),
            r.1 == (UnixAction::Connect {
                just_spawned: false,
                max_attempts: if no_auto_start {
                    Some(1u64)
                } else {
                    None
                },
            }),
    {
        let max_attempts = if no_auto_start {
            Some(1u64)
        } else {
            None
        };
        (
            UnixConnect {
                may_start: initial && !no_auto_start && !no_serve_automatically,
                stage: UnixStage::First,
            },
            UnixAction::Connect { just_spawned: false, max_attempts },
        )
    }

    /// The last action succeeded or failed: names the next one.
    pub fn step(&mut self, succeeded: bool) -> (action: UnixAction)
        requires
            !(old(self).stage is Finished),
        ensures
            final(self).may_start == old(self).may_start,
            (final(self).stage, action) == old(self).next(succeeded),
    {
        match self.stage {
            UnixStage::First => if succeeded {
                self.stage = UnixStage::Finished;
                UnixAction::Use
            } else if self.may_start {
                self.stage = UnixStage::Starting;
                UnixAction::StartServer
            } else {
                self.stage = UnixStage::Finished;
                UnixAction::FailConnect
            },
            UnixStage::Starting => if succeeded {
                self.stage = UnixStage::Second;
                UnixAction::Connect { just_spawned: true, max_attempts: None }
            } else {
                self.stage = UnixStage::Finished;
                UnixAction::FailStart
            },
            _ => {
                self.stage = UnixStage::Finished;
                if succeeded {
                    UnixAction::Use
                } else {
                    UnixAction::FailAfterStart
                }
            },
        }
    }
}

/// Where the remote program is.
pub open spec fn bin_path(path: Option<String>) -> Seq<char> {
    match path {
        Some(p) => p@,
        None => "wezterm"@,
    }
}

/// Where the remote program is: at the configured path, or on the remote
/// search path.
pub fn wezterm_bin_path(path: &Option<String>) -> (s: String)
    ensures
        s@ == bin_path(*path),
{
    match path {
        Some(p) => p.clone(),
        None => "wezterm".to_owned(),
    }
}

/// The command that runs the proxy at the remote end of an ssh connection: the
/// configured one, or the remote program's, which only starts a server on the
/// first connection.
pub fn proxy_command_line(
    override_command: &Option<String>,
    remote_path: &Option<String>,
    initial: bool,
) -> (s: String)
    ensures
        s@ == match *override_command {
            Some(c) => c@,
            None => bin_path(*remote_path) + (if initial {
                " cli --prefer-mux proxy"@
            } else {
                " cli --prefer-mux --no-auto-start proxy"@
            }),
        },
{
    match override_command {
        Some(c) => c.clone(),
        None => {
            let mut s = wezterm_bin_path(remote_path);
            if initial {
                s.append(" cli --prefer-mux proxy");
            } else {
                s.append(" cli --prefer-mux --no-auto-start proxy");
            }
            s
        },
    }
}

/// The command that hands out TLS credentials at the remote end.
pub fn tlscreds_command_line(remote_path: &Option<String>) -> (s: String)
    ensures
        s@ == bin_path(*remote_path) + " cli tlscreds"@,
{
    let mut s = wezterm_bin_path(remote_path);
    s.append(" cli tlscreds");
    s
}

/// A slice is an equal share of what is left between the addresses still to be
/// tried: as many slices as there are addresses fit into it, and a nanosecond
/// more each would not. A share too short to be of use is a millisecond instead.
pub proof fn slices_are_equal_shares(left: nat, addrs: nat)
    requires
        0 < addrs <= u32::MAX,
    ensures
        left >= addrs * 1_000_000 ==> budget_slice(left, addrs) * addrs <= left < (budget_slice(
            left,
            addrs,
        ) + 1) * addrs,
        left < addrs * 1_000_000 ==> budget_slice(left, addrs) == 1_000_000,
        left >= 1_000_000 ==> budget_slice(left, 1) == left,
        budget_slice(left, 0) == budget_slice(left, 1),
{
    let share = left / addrs;
    assert(share * addrs <= left < (share + 1) * addrs) by (nonlinear_arith)
        requires
            addrs > 0,
            share == left / addrs,
    ;
    if left >= addrs * 1_000_000 {
        assert(share >= 1_000_000) by (nonlinear_arith)
            requires
                addrs > 0,
                left >= addrs * 1_000_000,
                share == left / addrs,
        ;
    } else {
        assert(share < 1_000_000) by (nonlinear_arith)
            requires
                addrs > 0,
                left < addrs * 1_000_000,
                share == left / addrs,
        ;
    }
    assert(left / 1 == left);
}

/// The addresses are tried in their order, each once, while there is time left;
/// then the error of the last one tried is reported.
pub proof fn addresses_are_tried_in_order(c: TcpState, elapsed: u128)
    requires
        c.wf(),
    ensures
        c.following(elapsed) is NoAddresses <==> c.addrs == 0,
        c.following(elapsed) is Try <==> c.tried < c.addrs && elapsed < c.budget,
        c.following(elapsed) is Try ==> c.following(elapsed)->Try_index == c.tried,
        c.following(elapsed) is Try ==> c.following(elapsed)->slice == budget_slice(
            (c.budget - elapsed) as nat,
            (c.addrs - c.tried) as nat,
        ),
        c.following(elapsed) is ReportError <==> c.tried > 0 && (c.tried == c.addrs || elapsed
            >= c.budget),
        c.following(elapsed) is ReportError ==> c.following(elapsed)->ReportError_index == c.tried
            - 1,
{
    if c.tried < c.addrs && elapsed < c.budget {
        let left = (c.budget - elapsed) as nat;
        let n = (c.addrs - c.tried) as nat;
        assert(left / shares(n) <= left) by {
            vstd::arithmetic::div_mod::lemma_div_is_ordered_by_denominator(
                left as int,
                1,
                shares(n) as int,
            );
        }
    }
}

/// What neither the target nor the caller's options speak of stays as the host
/// has it, the user and the port among it.
pub proof fn the_host_keeps_its_own_options(
    for_host: Map<Seq<char>, Seq<char>>,
    username: Option<Seq<char>>,
    host_and_port: Seq<char>,
    ssh_option: Map<Seq<char>, Seq<char>>,
    name: Seq<char>,
)
    requires
        !ssh_option.dom().contains(name),
        name == "user"@ ==> username is None,
        name == "port"@ ==> split_at_char(host_and_port, ':').len() <= 1,
    ensures
        ({
            let built = bootstrap_options(for_host, username, host_and_port, ssh_option);
            &&& built.dom().contains(name) <==> for_host.dom().contains(name)
            &&& for_host.dom().contains(name) ==> built[name] == for_host[name]
        }),
{
    reveal_strlit("user");
    reveal_strlit("port");
    assert("user"@[0] != "port"@[0]);
}

/// A failed attempt is followed by a pause and another attempt while any are
/// left, and by the end otherwise. The pause grows by fifty milliseconds each
/// time, and the attempt after it is made in the same way as the one before.
pub proof fn failed_attempts_are_repeated(u: RetryState)
    requires
        u.wf(),
    ensures
        ({
            let (after, action) = u.next(RetryEvent::SocketTried(false));
            let more = u.attempt + 1 < u.max_attempts;
            &&& more ==> action == (RetryAction::Sleep { ms: (50 * (u.attempt + 1)) as u64 })
            &&& more ==> after.attempt == u.attempt + 1 && after.expects(RetryEvent::Slept)
            &&& !more ==> action is Fail
            &&& after.proxy == u.proxy && after.max_attempts == u.max_attempts
            &&& u.next(RetryEvent::Slept).1 is SpawnProxy <==> u.proxy
            &&& u.next(RetryEvent::Slept).1 is ConnectSocket <==> !u.proxy
            &&& u.next(RetryEvent::Slept).0.attempt == u.attempt
            &&& u.proxy ==> u.next(RetryEvent::Slept).0.expects(RetryEvent::Spawned(true))
            &&& !u.proxy ==> u.next(RetryEvent::Slept).0.expects(RetryEvent::SocketTried(true))
            &&& u.next(RetryEvent::SocketTried(true)).1 is Connected
            &&& u.next(RetryEvent::Spawned(false)).1 is Fail
        }),
{
}

/// A proxy is looked at five times, whatever the first four looks show, and the
/// last one decides: a proxy that is still running is the connection, and one
/// that is not counts like a socket that could not be connected to.
pub proof fn a_proxy_is_looked_at_five_times(
    u: RetryState,
    a: bool,
    b: bool,
    c: bool,
    d: bool,
)
    requires
        u.wf(),
        u.stage is Spawning,
    ensures
        ({
            let (s1, first) = u.next(RetryEvent::Spawned(true));
            let (s2, second) = s1.next(RetryEvent::Polled(a));
            let (s3, third) = s2.next(RetryEvent::Polled(b));
            let (s4, fourth) = s3.next(RetryEvent::Polled(c));
            let (s5, fifth) = s4.next(RetryEvent::Polled(d));
            &&& first is PollProxy && second is PollProxy && third is PollProxy
            &&& fourth is PollProxy && fifth is PollProxy
            &&& s1.expects(RetryEvent::Polled(a)) && s5.expects(RetryEvent::Polled(true))
            &&& s5.next(RetryEvent::Polled(true)).1 is Connected
            &&& s5.next(RetryEvent::Polled(false)) == u.next(RetryEvent::SocketTried(false))
        }),
{
}

/// A server that can be reached is used. One that cannot is started where that
/// may be done, and then tried again with time to come up; where it may not, or
/// it cannot be started, or is not reached even so, the end says which.
pub proof fn a_server_is_started_once(u: UnixConnect)
    ensures
        ({
            let first = u.stage is First;
            let starting = u.stage is Starting;
            let second = u.stage is Second;
            &&& first || second ==> u.next(true).1 is Use
            &&& first ==> (u.next(false).1 is StartServer <==> u.may_start)
            &&& first && !u.may_start ==> u.next(false).1 is FailConnect
            &&& first && u.may_start ==> u.next(false).0 is Starting
            &&& starting ==> u.next(true).1 == (UnixAction::Connect {
                just_spawned: true,
                max_attempts: None,
            })
            &&& starting ==> u.next(true).0 is Second && u.next(false).1 is FailStart
            &&& second ==> u.next(false).1 is FailAfterStart
            &&& u.next(true).1 is Use || u.next(true).1 is FailStart ==> u.next(true).0 is Finished
            &&& !(u.next(false).1 is StartServer) ==> u.next(false).0 is Finished
        }),
{
}

/// The first attempt is made at once, but for a server that was just started,
/// which gets a fifth of a second and is then tried just the same. It is the
/// first of as many as are asked for, or of ten.
pub proof fn a_new_server_is_given_time(proxy: bool, n: u64)
    ensures
        ({
            let (waiting, sleep) = RetryState::begun(proxy, true, Some(n));
            let (at_once, first) = RetryState::begun(proxy, false, Some(n));
            &&& sleep == (RetryAction::Sleep { ms: 200 })
            &&& waiting.expects(RetryEvent::Slept)
            &&& waiting.next(RetryEvent::Slept) == (at_once, first)
            &&& first is SpawnProxy <==> proxy
            &&& first is ConnectSocket <==> !proxy
            &&& at_once.attempt == 0 && at_once.max_attempts == n && at_once.proxy == proxy
            &&& RetryState::begun(proxy, false, None) == RetryState::begun(proxy, false, Some(10))
            &&& RetryState::begun(proxy, true, None) == RetryState::begun(proxy, true, Some(10))
        }),
{
}

/// Each action is followed by word of its own outcome, and the end, be it a
/// connection or not, by nothing.
pub proof fn each_attempt_has_its_outcomes(u: RetryState, event: RetryEvent, then: RetryEvent)
    requires
        u.wf(),
        u.expects(event),
    ensures
        u.next(event).0.expects(then) <==> match u.next(event).1 {
            RetryAction::Sleep { .. } => then is Slept,
            RetryAction::ConnectSocket => then is SocketTried,
            RetryAction::SpawnProxy => then is Spawned,
            RetryAction::PollProxy => then is Polled,
            RetryAction::Connected => false,
            RetryAction::Fail => false,
        },
        u.next(event).0.proxy == u.proxy,
        u.next(event).0.max_attempts == u.max_attempts,
{
}

} // verus!
