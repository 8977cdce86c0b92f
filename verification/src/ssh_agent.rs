//! The agent symlink: which client's agent it points to, how it is replaced,
//! and which leftovers of other processes are cleared away.

use crate::path::{join, joined};
use crate::text::{
    chars_of, decimal, decimal_is_read_back, decimal_text, is_digit, parse_i32, same_text,
    signed_value, text_of,
};
use vstd::prelude::*;

verus! {

/// What marks the host name of a client that is connected through a proxy.
pub const PROXY_MARKER: &'static str = "via proxy pid";

/// How much later a proxy counts as having been used, in nanoseconds.
pub const PROXY_BONUS: i128 = 100_000_000;

/// A client of the multiplexer, as far as its agent goes. Two clients with the
/// same `id` are the same.
#[derive(Debug)]
pub struct AgentClient {
    pub id: u64,
    pub hostname: String,
    pub ssh_auth_sock: Option<String>,
    /// When it last had input, in nanoseconds on one clock.
    pub last_input: i128,
}

/// Whether `part` stands somewhere in `s`.
pub open spec fn occurs_in(s: Seq<char>, part: Seq<char>) -> bool {
    exists|k: int|
        0 <= k <= s.len() - part.len() && #[trigger] s.subrange(k, k + part.len()) == part
}

/// Whether `part` stands somewhere in `s`.
pub fn contains_text(s: &str, part: &str) -> (r: bool)
    ensures
        r == occurs_in(s@, part@),
{
    let v = chars_of(s);
    let p = chars_of(part);
    let mut k: usize = 0;
    if p.len() > v.len() {
        return false;
    }
    let last: usize = v.len() - p.len();
    while k <= last
        invariant
            v@ == s@,
            p@ == part@,
            p@.len() <= v@.len(),
            last == v@.len() - p@.len(),
            k <= last + 1,
            forall|j: int| 0 <= j < k ==> #[trigger] s@.subrange(j, j + part@.len()) != part@,
        decreases last + 1 - k,
    {
        let mut i: usize = 0;
        while i < p.len() && v[k + i] == p[i]
            invariant
                v@ == s@,
                p@ == part@,
                last == v@.len() - p@.len(),
                v@.len() == v.len(),
                k <= last,
                i <= p@.len(),
                forall|j: int| 0 <= j < i ==> s@[k + j] == part@[j],
            decreases p@.len() - i,
        {
            i = i + 1;
        }
        if i == p.len() {
            assert(s@.subrange(k as int, k + part@.len()) =~= part@);
            return true;
        }
        assert(s@.subrange(k as int, k + part@.len())[i as int] != part@[i as int]);
        if k == last {
            return false;
        }
        k = k + 1;
    }
    false
}

/// When a client counts as having been used last: a proxy a little later than
/// it was, so that it goes before the client behind it.
pub open spec fn weight(c: AgentClient) -> int {
    if occurs_in(c.hostname@, PROXY_MARKER@) {
        c.last_input + PROXY_BONUS
    } else {
        c.last_input as int
    }
}

/// The client at `i` is the one whose agent to use: it has one, no other that
/// has one was used later, and none before it just as late.
pub open spec fn is_best(clients: Seq<AgentClient>, i: int) -> bool {
    &&& 0 <= i < clients.len()
    &&& clients[i].ssh_auth_sock is Some
    &&& forall|j: int|
        0 <= j < clients.len() && (#[trigger] clients[j]).ssh_auth_sock is Some ==> weight(
            clients[j],
        ) <= weight(clients[i]) && (j < i ==> weight(clients[j]) < weight(clients[i]))
}

fn weight_of(c: &AgentClient) -> (w: i128)
    requires
        c.last_input + PROXY_BONUS <= i128::MAX,
    ensures
        w == weight(*c),
{
    if contains_text(c.hostname.as_str(), PROXY_MARKER) {
        c.last_input + PROXY_BONUS
    } else {
        c.last_input
    }
}

/// The client whose agent to use.
pub fn best_client(clients: &Vec<AgentClient>) -> (r: Option<usize>)
    requires
        forall|i: int|
            0 <= i < clients@.len() ==> (#[trigger] clients@[i]).last_input + PROXY_BONUS
                <= i128::MAX,
    ensures
        match r {
            Some(i) => is_best(clients@, i as int),
            None => forall|j: int|
                0 <= j < clients@.len() ==> (#[trigger] clients@[j]).ssh_auth_sock is None,
        },
{
    let mut best: Option<usize> = None;
    let mut best_weight: i128 = 0;
    let mut i: usize = 0;
    while i < clients.len()
        invariant
            i <= clients@.len(),
            forall|k: int|
                0 <= k < clients@.len() ==> (#[trigger] clients@[k]).last_input + PROXY_BONUS
                    <= i128::MAX,
            match best {
                Some(b) => b < i && best_weight == weight(clients@[b as int]) && is_best(
                    clients@.take(i as int),
                    b as int,
                ),
                None => forall|j: int|
                    0 <= j < i ==> (#[trigger] clients@[j]).ssh_auth_sock is None,
            },
        decreases clients@.len() - i,
    {
        let ghost before = best;
        if clients[i].ssh_auth_sock.is_some() {
            let w: i128 = weight_of(&clients[i]);
            let better = match best {
                Some(_) => w > best_weight,
                None => true,
            };
            if better {
                best = Some(i);
                best_weight = w;
            }
        }
        proof {
            let t = clients@.take(i + 1);
            let u = clients@.take(i as int);
            if let Some(b) = best {
                assert(t[b as int] == clients@[b as int]);
                assert forall|j: int|
                    0 <= j < t.len() && (#[trigger] t[j]).ssh_auth_sock is Some implies weight(t[j])
                    <= weight(t[b as int]) && (j < b ==> weight(t[j]) < weight(t[b as int])) by {
                    assert(t[j] == clients@[j]);
                    if j < i {
                        assert(u[j] == clients@[j]);
                        if let Some(a) = before {
                            assert(u[a as int] == clients@[a as int]);
                        }
                    }
                }
            } else {
                assert forall|j: int| 0 <= j < i + 1 implies (
                #[trigger] clients@[j]).ssh_auth_sock is None by {
                    assert(j < i || j == i);
                }
            }
        }
        i = i + 1;
    }
    assert(clients@.take(i as int) == clients@);
    best
}

/// What happens to the symlink.
#[derive(Debug)]
pub enum AgentUpdate {
    Keep,
    /// Point it to this socket.
    PointTo(String),
    /// Point it nowhere.
    Clear,
}

/// How many signals that the active client may have changed are kept.
pub const SIGNAL_LIMIT: u64 = 16;

/// How long the updater waits for the clients to settle, in milliseconds.
pub const SETTLE_MS: u64 = 100;

/// What the updater was last told to do.
#[derive(Debug, Clone, Copy, PartialEq, Eq, Structural)]
pub enum UpdaterStage {
    /// Wait for a signal.
    Waiting,
    /// Let the clients settle.
    Settling,
    /// Update the symlink.
    Updating,
    Stopped,
}

/// What happened to the updater.
#[derive(Debug, Clone, Copy, PartialEq, Eq, Structural)]
pub enum UpdaterEvent {
    /// It is to see whether there is a signal.
    Woken,
    Slept,
    Updated,
}

/// What the updater does next.
#[derive(Debug, Clone, Copy, PartialEq, Eq, Structural)]
pub enum UpdaterAction {
    /// Wait until there is a signal, or nobody is left to send one.
    Wait,
    Sleep { ms: u64 },
    /// Follow the clients that are there now.
    UpdateNow,
    Stop,
}

/// The signals that the active client may have changed, and where the updater
/// stands that follows them.
#[derive(Debug, Clone, Copy, PartialEq, Eq, Structural)]
pub struct Updater {
    pub pending: u64,
    /// Nobody is left to send a signal.
    pub closed: bool,
    pub stage: UpdaterStage,
}

impl Updater {
    /// A signal is dropped where there are enough: the updater is going to see
    /// what is so by then.
    pub open spec fn signalled(self) -> Updater {
        if self.pending < SIGNAL_LIMIT {
            Updater { pending: (self.pending + 1) as u64, ..self }
        } else {
            self
        }
    }

    /// What there is to do for an updater that is at nothing.
    pub open spec fn idle(self) -> (Updater, UpdaterAction) {
        if self.pending > 0 {
            (
                Updater {
                    pending: (self.pending - 1) as u64,
                    stage: UpdaterStage::Settling,
                    ..self
                },
                UpdaterAction::Sleep { ms: SETTLE_MS },
            )
        } else if self.closed {
            (Updater { stage: UpdaterStage::Stopped, ..self }, UpdaterAction::Stop)
        } else {
            (Updater { stage: UpdaterStage::Waiting, ..self }, UpdaterAction::Wait)
        }
    }

    /// The updater's next state and action. It takes one signal, lets the
    /// clients settle, takes all signals that came in the meantime, and follows
    /// the clients once.
    pub open spec fn next(self, event: UpdaterEvent) -> (Updater, UpdaterAction) {
        match (self.stage, event) {
            (UpdaterStage::Waiting, UpdaterEvent::Woken) => self.idle(),
            (UpdaterStage::Settling, UpdaterEvent::Slept) => (
                Updater { pending: 0, stage: UpdaterStage::Updating, ..self },
                UpdaterAction::UpdateNow,
            ),
            (UpdaterStage::Updating, UpdaterEvent::Updated) => self.idle(),
            _ => (self, UpdaterAction::Stop),
        }
    }

    pub open spec fn expects(self, event: UpdaterEvent) -> bool {
        match self.stage {
            UpdaterStage::Waiting => event is Woken,
            UpdaterStage::Settling => event is Slept,
            UpdaterStage::Updating => event is Updated,
            UpdaterStage::Stopped => false,
        }
    }
}

/// No signal is lost. Wherever the updater stands when one comes, it goes on to
/// follow the clients after that, having let them settle: at the latest after
/// the update that it is at, and whether or not the signal itself was kept.
pub proof fn every_signal_leads_to_an_update(u: Updater)
    requires
        !(u.stage is Stopped),
    ensures
        ({
            let s = u.signalled();
            let event = if s.stage is Updating {
                UpdaterEvent::Updated
            } else {
                UpdaterEvent::Woken
            };
            let settling = if s.stage is Settling {
                s
            } else {
                s.next(event).0
            };
            &&& !(s.stage is Settling) ==> s.expects(event) && s.next(event).1
                == (UpdaterAction::Sleep { ms: SETTLE_MS })
            &&& settling.expects(UpdaterEvent::Slept)
            &&& settling.next(UpdaterEvent::Slept).1 is UpdateNow
        }),
{
}

/// Signals that come while the clients settle make no difference: they lead to
/// the one update that is due.
pub proof fn signals_are_taken_together(u: Updater)
    requires
        u.stage is Settling,
    ensures
        u.signalled().next(UpdaterEvent::Slept) == u.next(UpdaterEvent::Slept),
        u.next(UpdaterEvent::Slept).0.pending == 0,
{
}

/// No more signals are ever kept than there is room for.
pub proof fn signals_stay_within_their_limit(u: Updater, event: UpdaterEvent)
    requires
        u.pending <= SIGNAL_LIMIT,
    ensures
        u.signalled().pending <= SIGNAL_LIMIT,
        u.next(event).0.pending <= SIGNAL_LIMIT,
{
}

/// The symlink of this process, the client whose agent it points to, and the
/// signals that another client may have become the active one.
pub struct AgentProxy {
    sock_path: String,
    current_target: Option<u64>,
    updates: Updater,
}

impl AgentProxy {
    pub closed spec fn sock_path(&self) -> Seq<char> {
        self.sock_path@
    }

    pub closed spec fn target(&self) -> Option<u64> {
        self.current_target
    }

    pub closed spec fn updater(&self) -> Updater {
        self.updates
    }

    /// The symlink of the process `pid` in the runtime directory.
    pub fn new(runtime_dir: &str, pid: u32) -> (a: AgentProxy)
        ensures
            a.sock_path() == joined(runtime_dir@, symlink_name(pid as nat)),
            a.target() is None,
            a.updater() == (Updater { pending: 0, closed: false, stage: UpdaterStage::Waiting }),
    {
        let mut name = "agent.".to_owned();
        name.append(decimal_text(pid as u64).as_str());
        let sock_path = join(runtime_dir, name.as_str());
        AgentProxy {
            sock_path,
            current_target: None,
            updates: Updater { pending: 0, closed: false, stage: UpdaterStage::Waiting },
        }
    }

    /// Signals that the active client may have changed.
    pub fn update_target(&mut self)
        ensures
            final(self).updater() == old(self).updater().signalled(),
            final(self).sock_path() == old(self).sock_path(),
            final(self).target() == old(self).target(),
    {
        if self.updates.pending < SIGNAL_LIMIT {
            self.updates.pending = self.updates.pending + 1;
        }
    }

    /// Ends the updater once the signals there are have been followed.
    pub fn close(&mut self)
        ensures
            final(self).updater() == (Updater { closed: true, ..old(self).updater() }),
            final(self).sock_path() == old(self).sock_path(),
            final(self).target() == old(self).target(),
    {
        self.updates.closed = true;
    }

    /// Takes what happened to the updater and names what it does next.
    pub fn process_updates(&mut self, event: UpdaterEvent) -> (action: UpdaterAction)
        requires
            old(self).updater().expects(event),
        ensures
            (final(self).updater(), action) == old(self).updater().next(event),
            final(self).sock_path() == old(self).sock_path(),
            final(self).target() == old(self).target(),
    {
        match event {
            UpdaterEvent::Slept => {
                self.updates.pending = 0;
                self.updates.stage = UpdaterStage::Updating;
                UpdaterAction::UpdateNow
            },
            _ => if self.updates.pending > 0 {
                self.updates.pending = self.updates.pending - 1;
                self.updates.stage = UpdaterStage::Settling;
                UpdaterAction::Sleep { ms: SETTLE_MS }
            } else if self.updates.closed {
                self.updates.stage = UpdaterStage::Stopped;
                UpdaterAction::Stop
            } else {
                self.updates.stage = UpdaterStage::Waiting;
                UpdaterAction::Wait
            },
        }
    }

    /// Where the symlink is.
    pub fn path(&self) -> (s: &str)
        ensures
            s@ == self.sock_path(),
    {
        self.sock_path.as_str()
    }

    /// The agent to start with: the configured one, or that of the environment.
    pub fn default_ssh_auth_sock(configured: Option<String>, environment: Option<String>) -> (r:
        Option<String>)
        ensures
            r == (if configured is Some {
                configured
            } else {
                environment
            }),
    {
        match configured {
            Some(value) => Some(value),
            None => environment,
        }
    }

    /// Decides what the symlink points to, given the clients there are.
    pub fn update_now(&mut self, clients: &Vec<AgentClient>) -> (u: AgentUpdate)
        requires
            forall|i: int|
                0 <= i < clients@.len() ==> (#[trigger] clients@[i]).last_input + PROXY_BONUS
                    <= i128::MAX,
        ensures
            final(self).sock_path() == old(self).sock_path(),
            final(self).updater() == old(self).updater(),
            forall|i: int| #[trigger]
                is_best(clients@, i) ==> final(self).target() == Some(clients@[i].id) && (if old(
                    self,
                ).target() == Some(clients@[i].id) {
                    u is Keep
                } else {
                    u is PointTo && u->PointTo_0@ == clients@[i].ssh_auth_sock->0@
                }),
            (forall|j: int|
                0 <= j < clients@.len() ==> (#[trigger] clients@[j]).ssh_auth_sock is None)
                ==> final(self).target() is None && (if old(self).target() is Some {
                u is Clear
            } else {
                u is Keep
            }),
            u is Keep <==> final(self).target() == old(self).target(),
            u is PointTo <==> final(self).target() is Some && final(self).target() != old(
                self,
            ).target(),
            u is Clear <==> final(self).target() is None && old(self).target() is Some,
    {
        match best_client(clients) {
            Some(b) => {
                proof {
                    assert forall|i: int| #[trigger] is_best(clients@, i) implies i == b by {
                        lemma_best_is_unique(clients@, i, b as int);
                    }
                }
                let id: u64 = clients[b].id;
                let needs_update = match self.current_target {
                    None => true,
                    Some(prior) => prior != id,
                };
                assert(is_best(clients@, b as int));
                if needs_update {
                    self.current_target = Some(id);
                    match &clients[b].ssh_auth_sock {
                        Some(sock) => AgentUpdate::PointTo(sock.clone()),
                        None => AgentUpdate::Keep,
                    }
                } else {
                    AgentUpdate::Keep
                }
            },
            None => {
                proof {
                    assert forall|i: int| !(#[trigger] is_best(clients@, i)) by {
                        if is_best(clients@, i) {
                            assert(clients@[i].ssh_auth_sock is None);
                        }
                    }
                }
                if self.current_target.is_some() {
                    self.current_target = None;
                    AgentUpdate::Clear
                } else {
                    AgentUpdate::Keep
                }
            },
        }
    }
}

proof fn lemma_best_is_unique(clients: Seq<AgentClient>, i: int, j: int)
    requires
        is_best(clients, i),
        is_best(clients, j),
    ensures
        i == j,
{
    assert(clients[i].ssh_auth_sock is Some);
    assert(clients[j].ssh_auth_sock is Some);
}

/// Where a proxy and the client behind it are used at about the same time, the
/// proxy's agent is the one that is used.
pub proof fn proxies_go_first(clients: Seq<AgentClient>, proxy: int, other: int)
    requires
        0 <= proxy < clients.len(),
        0 <= other < clients.len(),
        clients[proxy].ssh_auth_sock is Some,
        occurs_in(clients[proxy].hostname@, PROXY_MARKER@),
        !occurs_in(clients[other].hostname@, PROXY_MARKER@),
        clients[other].last_input < clients[proxy].last_input + PROXY_BONUS,
    ensures
        !is_best(clients, other),
{
    if is_best(clients, other) {
        assert(clients[proxy].ssh_auth_sock is Some);
    }
}

/// What replacing a symlink has to do next.
#[derive(Debug, Clone, Copy, PartialEq, Eq, Structural)]
pub enum LinkStep {
    Create,
    /// Remove what stands in its place.
    Remove,
    CreateAgain,
    Done,
    /// The symlink could not be created.
    FailCreate,
    /// What stands in its place could not be removed.
    FailRemove,
}

/// What came of a step.
#[derive(Debug, Clone, Copy, PartialEq, Eq, Structural)]
pub enum LinkResult {
    Succeeded,
    AlreadyExists,
    Failed,
}

impl LinkStep {
    pub open spec fn following(self, result: LinkResult) -> LinkStep {
        match self {
            LinkStep::Create => match result {
                LinkResult::Succeeded => LinkStep::Done,
                LinkResult::AlreadyExists => LinkStep::Remove,
                LinkResult::Failed => LinkStep::FailCreate,
            },
            LinkStep::Remove => if result is Succeeded {
                LinkStep::CreateAgain
            } else {
                LinkStep::FailRemove
            },
            LinkStep::CreateAgain => if result is Succeeded {
                LinkStep::Done
            } else {
                LinkStep::FailCreate
            },
            _ => self,
        }
    }

    pub open spec fn text(
        self,
        link: Seq<char>,
        original: Seq<char>,
        error: Seq<char>,
    ) -> Option<Seq<char>> {
        match self {
            LinkStep::FailCreate => Some(
                "failed to create symlink "@ + link + " -> "@ + original + ": "@ + error,
            ),
            LinkStep::FailRemove => Some("failed to remove "@ + link),
            _ => None,
        }
    }

    /// What is said of the end, where it is an error.
    pub fn failure(self, link: &str, original: &str, error: &str) -> (r: Option<String>)
        ensures
            match self.text(link@, original@, error@) {
                Some(text) => r matches Some(s) && s@ == text,
                None => r is None,
            },
    {
        match self {
            LinkStep::FailCreate => {
                let mut s = "failed to create symlink ".to_owned();
                s.append(link);
                s.append(" -> ");
                s.append(original);
                s.append(": ");
                s.append(error);
                Some(s)
            },
            LinkStep::FailRemove => {
                let mut s = "failed to remove ".to_owned();
                s.append(link);
                Some(s)
            },
            _ => None,
        }
    }

    /// The step that follows: what stands in the way is removed once.
    pub fn next(self, result: LinkResult) -> (r: LinkStep)
        ensures
            r == self.following(result),
    {
        match self {
            LinkStep::Create => match result {
                LinkResult::Succeeded => LinkStep::Done,
                LinkResult::AlreadyExists => LinkStep::Remove,
                LinkResult::Failed => LinkStep::FailCreate,
            },
            LinkStep::Remove => if result == LinkResult::Succeeded {
                LinkStep::CreateAgain
            } else {
                LinkStep::FailRemove
            },
            LinkStep::CreateAgain => if result == LinkResult::Succeeded {
                LinkStep::Done
            } else {
                LinkStep::FailCreate
            },
            LinkStep::Done => LinkStep::Done,
            LinkStep::FailCreate => LinkStep::FailCreate,
            LinkStep::FailRemove => LinkStep::FailRemove,
        }
    }
}

/// What probing a process showed.
#[derive(Debug, Clone, Copy, PartialEq, Eq, Structural)]
pub enum Probe {
    /// It may be signalled.
    Reachable,
    /// It may not, being somebody else's.
    NotPermitted,
    /// Any other answer.
    Gone,
}

/// What probing a process may answer. It depends on the processes that there
/// are, so one process may be given different answers.
pub uninterp spec fn may_answer(pid: i32, p: Probe) -> bool;

/// `nix::sys::signal::kill` without a signal only probes the process. The
/// answer is one that the process may be given at that time; nothing more is
/// said of it.
#[verifier::external_body]
fn probe_process(pid: i32) -> (p: Probe)
    ensures
        may_answer(pid, p),
{
    match nix::sys::signal::kill(nix::unistd::Pid::from_raw(pid), None) {
        Ok(()) => Probe::Reachable,
        Err(nix::errno::Errno::EPERM) => Probe::NotPermitted,
        Err(_) => Probe::Gone,
    }
}

/// A process that may not be signalled is alive all the same.
pub fn owner_is_alive(probe: Probe) -> (r: bool)
    ensures
        r == !(probe is Gone),
{
    match probe {
        Probe::Reachable => true,
        Probe::NotPermitted => true,
        Probe::Gone => false,
    }
}

/// Whether the process that owns a symlink is still running: it is unless the
/// system answers that it is gone. [`owner_is_alive`] says what follows from
/// each answer.
pub fn agent_owner_is_alive(pid: i32) -> (r: bool)
    ensures
        exists|p: Probe| #[trigger] may_answer(pid, p) && r == !(p is Gone),
{
    owner_is_alive(probe_process(pid))
}

/// The name that the process `pid` gives its symlink.
pub open spec fn symlink_name(pid: nat) -> Seq<char> {
    "agent."@ + decimal(pid)
}

/// Whether `name` is, letter for letter, what the process `pid` calls its
/// symlink. Only a positive number names one process.
pub open spec fn is_symlink_of(name: Seq<char>, pid: nat) -> bool {
    0 < pid <= i32::MAX && name == symlink_name(pid)
}

/// The process that a file of the runtime directory belongs to, where its name
/// is that of an agent symlink.
pub open spec fn agent_owner(name: Seq<char>) -> Option<int> {
    if exists|pid: nat| is_symlink_of(name, pid) {
        Some((choose|pid: nat| is_symlink_of(name, pid)) as int)
    } else {
        None
    }
}

proof fn lemma_symlink_is_read_back(name: Seq<char>, pid: nat)
    requires
        is_symlink_of(name, pid),
    ensures
        name.len() >= "agent."@.len(),
        name.take("agent."@.len() as int) == "agent."@,
        name.skip("agent."@.len() as int) == decimal(pid),
        signed_value(decimal(pid)) == Some(pid as int),
        agent_owner(name) == Some(pid as int),
{
    let prefix = "agent."@;
    decimal_is_read_back(pid);
    assert(name.take(prefix.len() as int) == prefix);
    assert(name.skip(prefix.len() as int) == decimal(pid));
    assert(is_digit(decimal(pid)[0]));
    let other = choose|p: nat| is_symlink_of(name, p);
    decimal_is_read_back(other);
    assert(name.skip(prefix.len() as int) == decimal(other));
}

/// The process that a file of the runtime directory belongs to.
pub fn owner_of(name: &str) -> (r: Option<i32>)
    ensures
        match agent_owner(name@) {
            Some(pid) => r == Some(pid as i32),
            None => r is None,
        },
{
    let v = chars_of(name);
    let prefix = chars_of("agent.");
    if v.len() < prefix.len() {
        proof {
            if exists|pid: nat| is_symlink_of(name@, pid) {
                lemma_symlink_is_read_back(name@, choose|pid: nat| is_symlink_of(name@, pid));
            }
        }
        return None;
    }
    let mut rest: Vec<char> = Vec::new();
    let mut i: usize = 0;
    let n: usize = prefix.len();
    while i < v.len()
        invariant
            i <= v@.len(),
            v@ == name@,
            prefix@ == "agent."@,
            n == prefix@.len(),
            n <= v@.len(),
            i <= n ==> name@.take(i as int) == prefix@.take(i as int),
            i <= n ==> rest@ == Seq::<char>::empty(),
            i > n ==> name@.take(n as int) == prefix@ && rest@ == name@.subrange(
                n as int,
                i as int,
            ),
        decreases v@.len() - i,
    {
        if i < n {
            if v[i] != prefix[i] {
                assert(name@.take(n as int)[i as int] != prefix@[i as int]);
                proof {
                    if exists|pid: nat| is_symlink_of(name@, pid) {
                        lemma_symlink_is_read_back(
                            name@,
                            choose|pid: nat| is_symlink_of(name@, pid),
                        );
                    }
                }
                return None;
            }
            assert(name@.take(i + 1) =~= prefix@.take(i + 1)) by {
                assert(name@.take(i + 1) == name@.take(i as int).push(name@[i as int]));
                assert(prefix@.take(i + 1) == prefix@.take(i as int).push(prefix@[i as int]));
            }
        } else {
            assert(prefix@.take(n as int) == prefix@);
            rest.push(v[i]);
            assert(rest@ =~= name@.subrange(n as int, i + 1));
        }
        i = i + 1;
    }
    assert(prefix@.take(n as int) == prefix@);
    assert(rest@ =~= name@.skip(n as int));
    let text = text_of(&rest);
    proof {
        if exists|pid: nat| is_symlink_of(name@, pid) {
            lemma_symlink_is_read_back(name@, choose|pid: nat| is_symlink_of(name@, pid));
        }
    }
    match parse_i32(text.as_str()) {
        Some(pid) => if pid > 0 && same_text(decimal_text(pid as u64).as_str(), text.as_str()) {
            proof {
                assert(name@ == "agent."@ + name@.skip(n as int));
                lemma_symlink_is_read_back(name@, pid as nat);
            }
            Some(pid)
        } else {
            None
        },
        None => None,
    }
}

/// Whether a file of the runtime directory is to be removed: it is an agent
/// symlink whose owner is gone.
pub open spec fn is_prunable(name: Seq<char>, probe: Probe) -> bool {
    agent_owner(name) is Some && probe is Gone
}

/// Whether a file of the runtime directory is to be removed, given what probing
/// its owner answered.
pub fn should_prune(name: &str, probe: Probe) -> (r: bool)
    ensures
        r == is_prunable(name@, probe),
        r == (probe is Gone && exists|pid: nat|
            0 < pid <= i32::MAX && name@ == "agent."@ + #[trigger] decimal(pid)),
{
    proof {
        assert forall|pid: nat| 0 < pid <= i32::MAX && name@ == "agent."@ + #[trigger] decimal(
            pid,
        ) implies is_symlink_of(name@, pid) by {}
        assert forall|pid: nat| #[trigger] is_symlink_of(name@, pid) implies 0 < pid <= i32::MAX
            && name@ == "agent."@ + decimal(pid) by {}
    }
    match owner_of(name) {
        Some(_) => !owner_is_alive(probe),
        None => false,
    }
}

/// Whether a file of the runtime directory is an agent symlink that nobody
/// serves any more. Its owner is probed, and the file is removed where the system
/// answers that the owner is gone; a file without an owner is left alone.
/// [`should_prune`] says what follows from each answer.
pub fn is_abandoned(name: &str) -> (r: bool)
    ensures
        agent_owner(name@) is None ==> !r,
        agent_owner(name@) matches Some(owner) ==> exists|pid: i32, p: Probe| #[trigger]
            may_answer(pid, p) && pid == owner && r == is_prunable(name@, p),
{
    match owner_of(name) {
        Some(pid) => should_prune(name, probe_process(pid)),
        None => false,
    }
}

/// Nothing is removed that does not carry the number of one process, and
/// nothing whose owner may be alive.
pub proof fn only_dead_owners_are_pruned(name: Seq<char>, probe: Probe)
    requires
        is_prunable(name, probe),
    ensures
        agent_owner(name) is Some,
        agent_owner(name)->0 > 0,
        probe is Gone,
{
}

/// The symlink that a process makes is told to be its own.
pub proof fn own_symlinks_are_recognised(pid: i32)
    requires
        pid > 0,
    ensures
        agent_owner(symlink_name(pid as nat)) == Some(pid as int),
{
    assert(is_symlink_of(symlink_name(pid as nat), pid as nat));
    lemma_symlink_is_read_back(symlink_name(pid as nat), pid as nat);
}

/// No other name is taken for a symlink: a file that has an owner is called
/// exactly what that process calls its symlink.
pub proof fn only_own_symlinks_are_recognised(name: Seq<char>)
    requires
        agent_owner(name) is Some,
    ensures
        0 < agent_owner(name)->0 <= i32::MAX,
        name == symlink_name(agent_owner(name)->0 as nat),
{
}

/// A text occurs in whatever it is put into.
pub proof fn a_part_occurs_in_the_whole(a: Seq<char>, part: Seq<char>, b: Seq<char>)
    ensures
        occurs_in(a + part + b, part),
        part.len() > a.len() ==> !occurs_in(a, part),
{
    let s = a + part + b;
    let k = a.len() as int;
    assert(s.subrange(k, k + part.len()) == part);
}

/// A client counts as used when it was, and a proxy a tenth of a second later.
pub proof fn proxies_count_as_used_later(c: AgentClient)
    ensures
        occurs_in(c.hostname@, "via proxy pid"@) ==> weight(c) == c.last_input + 100_000_000,
        !occurs_in(c.hostname@, "via proxy pid"@) ==> weight(c) == c.last_input,
{
}

/// One more client with an agent becomes the one whose agent is used exactly
/// where it counts as used later than the one before; a client without an agent
/// changes nothing.
pub proof fn a_later_use_takes_the_agent_over(clients: Seq<AgentClient>, i: int, c: AgentClient)
    requires
        is_best(clients, i),
    ensures
        c.ssh_auth_sock is Some && weight(c) > weight(clients[i]) <==> is_best(
            clients.push(c),
            clients.len() as int,
        ),
        c.ssh_auth_sock is None || weight(c) <= weight(clients[i]) <==> is_best(
            clients.push(c),
            i,
        ),
{
    let all = clients.push(c);
    let n = clients.len() as int;
    assert(all[n] == c);
    assert(all[i] == clients[i]);
    if c.ssh_auth_sock is Some && weight(c) > weight(clients[i]) {
        assert forall|j: int| 0 <= j < all.len() && (#[trigger] all[j]).ssh_auth_sock
            is Some implies weight(all[j]) <= weight(all[n]) && (j < n ==> weight(all[j]) < weight(
            all[n],
        )) by {
            if j < n {
                assert(all[j] == clients[j]);
            }
        }
    }
    if c.ssh_auth_sock is None || weight(c) <= weight(clients[i]) {
        assert forall|j: int| 0 <= j < all.len() && (#[trigger] all[j]).ssh_auth_sock
            is Some implies weight(all[j]) <= weight(all[i]) && (j < i ==> weight(all[j]) < weight(
            all[i],
        )) by {
            if j < n {
                assert(all[j] == clients[j]);
            }
        }
    }
}

/// An updater with nothing to follow waits, and stops once nobody is left to send
/// a signal; a signal that is there is followed even then. Taking one up leaves
/// the others, and following the clients leaves none.
pub proof fn the_updater_waits_or_stops(u: Updater, then: UpdaterEvent)
    requires
        u.stage is Waiting || u.stage is Updating,
    ensures
        ({
            let event = if u.stage is Waiting {
                UpdaterEvent::Woken
            } else {
                UpdaterEvent::Updated
            };
            let (after, action) = u.next(event);
            &&& u.expects(event)
            &&& action is Wait <==> u.pending == 0 && !u.closed
            &&& action is Stop <==> u.pending == 0 && u.closed
            &&& action == (UpdaterAction::Sleep { ms: 100 }) <==> u.pending > 0
            &&& u.pending > 0 ==> after.pending == u.pending - 1
            &&& after.closed == u.closed
            &&& after.expects(then) <==> match action {
                UpdaterAction::Wait => then is Woken,
                UpdaterAction::Sleep { .. } => then is Slept,
                UpdaterAction::UpdateNow => then is Updated,
                UpdaterAction::Stop => false,
            }
            &&& u.pending < 16 ==> u.signalled().pending == u.pending + 1
            &&& u.signalled().stage == u.stage && u.signalled().closed == u.closed
        }),
{
}

/// A symlink is made where nothing is in its way, and otherwise made anew once
/// what is there was removed. What cannot be removed, or stands in the way again,
/// is the end of it, and the end says which of the two it was.
pub proof fn a_symlink_is_replaced_once(result: LinkResult)
    ensures
        LinkStep::Create.following(result) is Done <==> result is Succeeded,
        LinkStep::Create.following(result) is Remove <==> result is AlreadyExists,
        LinkStep::Create.following(result) is FailCreate <==> result is Failed,
        LinkStep::Remove.following(result) is CreateAgain <==> result is Succeeded,
        LinkStep::Remove.following(result) is FailRemove <==> !(result is Succeeded),
        LinkStep::CreateAgain.following(result) is Done <==> result is Succeeded,
        LinkStep::CreateAgain.following(result) is FailCreate <==> !(result is Succeeded),
{
}

/// An agent symlink is removed exactly where its owner is gone; a process that
/// answers, or may not be asked, keeps its own.
pub proof fn symlinks_of_the_gone_are_pruned(pid: i32, probe: Probe)
    requires
        pid > 0,
    ensures
        is_prunable(symlink_name(pid as nat), probe) <==> probe is Gone,
{
    own_symlinks_are_recognised(pid);
}

/// A single client's agent is used where it has one.
pub proof fn the_only_agent_is_used(c: AgentClient)
    ensures
        is_best(seq![c], 0) <==> c.ssh_auth_sock is Some,
{
}

/// Once the clients have settled they are followed, and nothing else comes before
/// that is done.
pub proof fn settled_clients_are_followed(u: Updater, then: UpdaterEvent)
    requires
        u.stage is Settling,
    ensures
        u.expects(then) <==> then is Slept,
        u.next(UpdaterEvent::Slept).1 is UpdateNow,
        u.next(UpdaterEvent::Slept).0.expects(then) <==> then is Updated,
        u.next(UpdaterEvent::Slept).0.closed == u.closed,
{
}

} // verus!
