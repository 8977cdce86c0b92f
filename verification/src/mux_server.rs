//! The multiplexer server: what it starts with, how it puts itself in the
//! background, what it listens on, and the byte pump of its proxy.

use crate::spawn::{SimpleExecutor, SpawnOp, SpawnState, TickAction};
use crate::text::{decimal, decimal_text, join2, join3, texts};
use vstd::prelude::*;

verus! {

/// The variables that would mislead the programs a daemon starts, and those
/// that the configuration adds to them.
pub open spec fn misleading_names(configured: Seq<Seq<char>>) -> Seq<Seq<char>> {
    seq!["OLDPWD"@, "PWD"@, "SHLVL"@, "WEZTERM_PANE"@, "WEZTERM_UNIX_SOCKET"@, "_"@] + configured
}

fn push_text(v: &mut Vec<String>, s: &str)
    ensures
        texts(final(v)@) == texts(old(v)@).push(s@),
{
    v.push(s.to_owned());
    assert(texts(v@) == texts(old(v)@).push(s@));
}

/// The environment variables to remove, in order.
pub fn scrub_env(configured: &Vec<String>) -> (names: Vec<String>)
    ensures
        texts(names@) == misleading_names(texts(configured@)),
{
    let mut names: Vec<String> = Vec::new();
    assert(texts(names@) == Seq::<Seq<char>>::empty());
    push_text(&mut names, "OLDPWD");
    push_text(&mut names, "PWD");
    push_text(&mut names, "SHLVL");
    push_text(&mut names, "WEZTERM_PANE");
    push_text(&mut names, "WEZTERM_UNIX_SOCKET");
    push_text(&mut names, "_");
    let ghost first = seq![
        "OLDPWD"@,
        "PWD"@,
        "SHLVL"@,
        "WEZTERM_PANE"@,
        "WEZTERM_UNIX_SOCKET"@,
        "_"@,
    ];
    assert(texts(names@) == first);
    push_all(&mut names, configured);
    names
}

fn push_all(v: &mut Vec<String>, more: &Vec<String>)
    ensures
        texts(final(v)@) == texts(old(v)@) + texts(more@),
{
    let mut i: usize = 0;
    assert(texts(v@) == texts(old(v)@) + texts(more@).take(0));
    while i < more.len()
        invariant
            i <= more@.len(),
            texts(v@) == texts(old(v)@) + texts(more@).take(i as int),
        decreases more@.len() - i,
    {
        push_text(v, more[i].as_str());
        assert(texts(more@)[i as int] == more@[i as int]@);
        i = i + 1;
        assert(texts(v@) == texts(old(v)@) + texts(more@).take(i as int));
    }
    assert(texts(more@).take(i as int) == texts(more@));
}

/// What the byte pump does next.
#[derive(Debug)]
pub enum PumpAction {
    /// Read up to 8 KiB.
    Read,
    WriteAll(Vec<u8>),
    Flush,
    Done,
    Fail(String),
}

/// What came of it.
#[derive(Debug)]
pub enum PumpEvent {
    /// What was read; nothing at the end.
    Bytes(Vec<u8>),
    Written,
    Flushed,
    Failed(String),
}

/// How much the pump reads at once.
pub const PUMP_CHUNK: usize = 8192;

pub open spec fn pump_action(event: PumpEvent) -> PumpAction {
    match event {
        PumpEvent::Bytes(b) => if b@.len() == 0 {
            PumpAction::Done
        } else {
            PumpAction::WriteAll(b)
        },
        PumpEvent::Written => PumpAction::Flush,
        PumpEvent::Flushed => PumpAction::Read,
        PumpEvent::Failed(e) => PumpAction::Fail(e),
    }
}

/// The byte pump: whatever is read is written and flushed before more is read,
/// until nothing more comes or something fails.
pub fn consume_stream(event: PumpEvent) -> (action: PumpAction)
    ensures
        action == pump_action(event),
{
    match event {
        PumpEvent::Bytes(b) => if b.len() == 0 {
            PumpAction::Done
        } else {
            PumpAction::WriteAll(b)
        },
        PumpEvent::Written => PumpAction::Flush,
        PumpEvent::Flushed => PumpAction::Read,
        PumpEvent::Failed(e) => PumpAction::Fail(e),
    }
}

/// What the events of a run brought in.
pub open spec fn pumped_in(events: Seq<PumpEvent>) -> Seq<u8>
    decreases events.len(),
{
    if events.len() == 0 {
        Seq::empty()
    } else {
        let rest = pumped_in(events.drop_last());
        match events.last() {
            PumpEvent::Bytes(b) => rest + b@,
            _ => rest,
        }
    }
}

/// What the actions of a run put out.
pub open spec fn pumped_out(events: Seq<PumpEvent>) -> Seq<u8>
    decreases events.len(),
{
    if events.len() == 0 {
        Seq::empty()
    } else {
        let rest = pumped_out(events.drop_last());
        match pump_action(events.last()) {
            PumpAction::WriteAll(b) => rest + b@,
            _ => rest,
        }
    }
}

/// The pump copies exactly: after any run, what was put out is what came in.
pub proof fn pump_copies_exactly(events: Seq<PumpEvent>)
    ensures
        pumped_out(events) == pumped_in(events),
    decreases events.len(),
{
    if events.len() > 0 {
        pump_copies_exactly(events.drop_last());
        if let PumpEvent::Bytes(b) = events.last() {
            if b@.len() == 0 {
                assert(pumped_in(events.drop_last()) + b@ == pumped_in(events.drop_last()));
            }
        }
    }
}

/// The program to run first: what was asked for, or the default one.
#[derive(Debug)]
pub struct CommandSpec {
    pub argv: Option<Vec<String>>,
    pub cwd: Option<String>,
}

/// The program that the command line asks for.
pub open spec fn command_asked_for(prog: Vec<String>, cwd: Option<String>) -> Option<CommandSpec> {
    if prog@.len() > 0 {
        Some(CommandSpec { argv: Some(prog), cwd })
    } else if cwd is Some {
        Some(CommandSpec { argv: None, cwd })
    } else {
        None
    }
}

/// The program that the command line asks for, if it asks for one or for a
/// directory.
pub fn build_command(prog: Vec<String>, cwd: Option<String>) -> (r: Option<CommandSpec>)
    ensures
        match r {
            None => prog@.len() == 0 && cwd is None,
            Some(c) => (prog@.len() > 0 || cwd is Some) && c.cwd == cwd && match c.argv {
                Some(argv) => prog@.len() > 0 && argv == prog,
                None => prog@.len() == 0,
            },
        },
        r == command_asked_for(prog, cwd),
{
    if prog.len() == 0 && cwd.is_none() {
        return None;
    }
    let argv = if prog.len() == 0 {
        None
    } else {
        Some(prog)
    };
    Some(CommandSpec { argv, cwd })
}

/// The command line, as far as it is handed on to the background process.
#[derive(Debug)]
pub struct Opt {
    pub skip_config: bool,
    pub config_file: Option<String>,
    pub config_override: Vec<(String, String)>,
    pub daemonize: bool,
    pub cwd: Option<String>,
    pub pid_file_fd: Option<i32>,
    pub prog: Vec<String>,
}

/// The settings given on the command line, as they were given.
pub open spec fn override_args(v: Seq<(String, String)>) -> Seq<Seq<char>>
    decreases v.len(),
{
    if v.len() == 0 {
        Seq::empty()
    } else {
        override_args(v.drop_last()).push("--config"@).push(v.last().0@ + "="@ + v.last().1@)
    }
}

/// The decimal text of a number with its sign.
pub open spec fn signed_decimal(n: i32) -> Seq<char> {
    if n < 0 {
        seq!['-'] + decimal((-(n as int)) as nat)
    } else {
        decimal(n as nat)
    }
}

fn signed_text(n: i32) -> (s: String)
    ensures
        s@ == signed_decimal(n),
{
    if n < 0 {
        let mut s = String::new();
        s.push('-');
        s.append(decimal_text((0 - n as i64) as u64).as_str());
        assert(s@ == signed_decimal(n));
        s
    } else {
        decimal_text(n as u64)
    }
}

/// A flag with its value, or nothing.
pub open spec fn flag_args(flag: Seq<char>, value: Option<String>) -> Seq<Seq<char>> {
    match value {
        Some(v) => seq![flag, v@],
        None => Seq::empty(),
    }
}

/// The arguments of the background process: those of this one, without the
/// request to go to the background, and with the lock file's descriptor.
pub open spec fn background_args(opt: Opt, pid_file: Option<i32>) -> Seq<Seq<char>> {
    let fd = match pid_file {
        Some(fd) => seq!["--pid-file-fd"@, signed_decimal(fd)],
        None => Seq::empty(),
    };
    let skip = if opt.skip_config {
        seq!["-n"@]
    } else {
        Seq::empty()
    };
    let prog = if opt.prog@.len() > 0 {
        seq!["--"@] + texts(opt.prog@)
    } else {
        Seq::empty()
    };
    fd + skip + flag_args("--config-file"@, opt.config_file) + override_args(
        opt.config_override@,
    ) + flag_args("--cwd"@, opt.cwd) + prog
}

fn push_flag(args: &mut Vec<String>, flag: &str, value: &Option<String>)
    ensures
        texts(final(args)@) == texts(old(args)@) + flag_args(flag@, *value),
{
    if let Some(v) = value {
        push_text(args, flag);
        push_text(args, v.as_str());
        assert(texts(args@) == texts(old(args)@) + seq![flag@, v@]);
    } else {
        assert(texts(args@) == texts(old(args)@) + Seq::<Seq<char>>::empty());
    }
}

/// What is said where the background process could not be started; `error` is
/// the error as it is shown.
pub fn reexec_failed(error: &str) -> (s: String)
    ensures
        s@ == "failed to re-exec: "@ + error@,
{
    join2("failed to re-exec: ", error)
}

/// The arguments of the background process.
pub fn daemon_args(opt: &Opt, pid_file: Option<i32>) -> (args: Vec<String>)
    ensures
        texts(args@) == background_args(*opt, pid_file),
{
    let mut args: Vec<String> = Vec::new();
    assert(texts(args@) == Seq::<Seq<char>>::empty());
    if let Some(fd) = pid_file {
        push_text(&mut args, "--pid-file-fd");
        push_text(&mut args, signed_text(fd).as_str());
    }
    let ghost fd = match pid_file {
        Some(fd) => seq!["--pid-file-fd"@, signed_decimal(fd)],
        None => Seq::empty(),
    };
    assert(texts(args@) == fd);
    if opt.skip_config {
        push_text(&mut args, "-n");
    }
    let ghost skip = if opt.skip_config {
        seq!["-n"@]
    } else {
        Seq::empty()
    };
    assert(texts(args@) == fd + skip);
    push_flag(&mut args, "--config-file", &opt.config_file);
    let ghost so_far = texts(args@);
    let mut i: usize = 0;
    assert(opt.config_override@.take(0) == Seq::<(String, String)>::empty());
    assert(texts(args@) == so_far + override_args(opt.config_override@.take(0)));
    while i < opt.config_override.len()
        invariant
            i <= opt.config_override@.len(),
            texts(args@) == so_far + override_args(opt.config_override@.take(i as int)),
        decreases opt.config_override@.len() - i,
    {
        push_text(&mut args, "--config");
        let (name, value) = (&opt.config_override[i].0, &opt.config_override[i].1);
        push_text(&mut args, join3(name.as_str(), "=", value.as_str()).as_str());
        assert(opt.config_override@.take(i + 1).drop_last() == opt.config_override@.take(i as int));
        i = i + 1;
        assert(texts(args@) == so_far + override_args(opt.config_override@.take(i as int)));
    }
    assert(opt.config_override@.take(i as int) == opt.config_override@);
    push_flag(&mut args, "--cwd", &opt.cwd);
    let ghost so_far = texts(args@);
    if opt.prog.len() > 0 {
        push_text(&mut args, "--");
        push_all(&mut args, &opt.prog);
        assert(texts(args@) == so_far + (seq!["--"@] + texts(opt.prog@)));
    } else {
        assert(texts(args@) == so_far + Seq::<Seq<char>>::empty());
    }
    args
}

/// The request to go to the background is not handed on, and the descriptor
/// that is handed on is the new one: the arguments are the same whatever the
/// options say of either.
pub proof fn going_to_the_background_is_not_handed_on(
    opt: Opt,
    daemonize: bool,
    fd: Option<i32>,
    pid_file: Option<i32>,
)
    ensures
        background_args(Opt { daemonize, pid_file_fd: fd, ..opt }, pid_file) == background_args(
            opt,
            pid_file,
        ),
{
}

/// The parts of starting the server, in order.
#[derive(Debug, Clone, Copy, PartialEq, Eq, Structural)]
pub enum ServerPhase {
    /// Keep the lock file's descriptor from programs the server starts.
    CloseOnExec,
    Bootstrap,
    /// Detach from the foreground.
    Daemonize,
    /// Start over as the background process.
    Reexec,
    ScrubEnv,
    BlobLeases,
    InitMux,
    /// Listen, verifying the certificates of TLS clients.
    SpawnListeners,
    ExecutorLoop,
    Failed,
}

impl ServerPhase {
    pub open spec fn following(self, daemonize: bool, succeeded: bool) -> ServerPhase {
        if !succeeded {
            ServerPhase::Failed
        } else {
            match self {
                ServerPhase::CloseOnExec => ServerPhase::Bootstrap,
                ServerPhase::Bootstrap => if daemonize {
                    ServerPhase::Daemonize
                } else {
                    ServerPhase::ScrubEnv
                },
                ServerPhase::Daemonize => ServerPhase::Reexec,
                ServerPhase::ScrubEnv => ServerPhase::BlobLeases,
                ServerPhase::BlobLeases => ServerPhase::InitMux,
                ServerPhase::InitMux => ServerPhase::SpawnListeners,
                ServerPhase::SpawnListeners => ServerPhase::ExecutorLoop,
                _ => ServerPhase::Failed,
            }
        }
    }

    /// The part that follows. Starting over does not return where it succeeds,
    /// so nothing follows it.
    pub fn next(self, daemonize: bool, succeeded: bool) -> (r: ServerPhase)
        ensures
            r == self.following(daemonize, succeeded),
    {
        if !succeeded {
            return ServerPhase::Failed;
        }
        match self {
            ServerPhase::CloseOnExec => ServerPhase::Bootstrap,
            ServerPhase::Bootstrap => if daemonize {
                ServerPhase::Daemonize
            } else {
                ServerPhase::ScrubEnv
            },
            ServerPhase::Daemonize => ServerPhase::Reexec,
            ServerPhase::ScrubEnv => ServerPhase::BlobLeases,
            ServerPhase::BlobLeases => ServerPhase::InitMux,
            ServerPhase::InitMux => ServerPhase::SpawnListeners,
            ServerPhase::SpawnListeners => ServerPhase::ExecutorLoop,
            _ => ServerPhase::Failed,
        }
    }
}

/// What is listened on.
#[derive(Debug)]
pub enum ListenStep {
    /// Name the socket in the environment, and listen on it.
    Unix(String),
    /// Listen for TLS connections at the address, with or without verifying
    /// the certificates of clients.
    Tls { bind_address: String, verify_peer: bool },
}

/// What a step says.
pub enum ListenView {
    Unix(Seq<char>),
    Tls { bind_address: Seq<char>, verify_peer: bool },
}

impl View for ListenStep {
    type V = ListenView;

    open spec fn view(&self) -> ListenView {
        match *self {
            ListenStep::Unix(s) => ListenView::Unix(s@),
            ListenStep::Tls { bind_address, verify_peer } => ListenView::Tls {
                bind_address: bind_address@,
                verify_peer,
            },
        }
    }
}

pub open spec fn listen_views(v: Seq<ListenStep>) -> Seq<ListenView> {
    v.map_values(|s: ListenStep| s@)
}

/// What is listened on.
pub open spec fn listeners(
    unix_sockets: Seq<Seq<char>>,
    tls_addresses: Seq<Seq<char>>,
    tls_verify_peer: bool,
) -> Seq<ListenView> {
    unix_sockets.map_values(|s: Seq<char>| ListenView::Unix(s)) + tls_addresses.map_values(
        |a: Seq<char>| ListenView::Tls { bind_address: a, verify_peer: tls_verify_peer },
    )
}

/// What is listened on: every unix domain, then every TLS server.
pub fn spawn_listeners(
    unix_sockets: &Vec<String>,
    tls_addresses: &Vec<String>,
    tls_verify_peer: bool,
) -> (steps: Vec<ListenStep>)
    ensures
        listen_views(steps@) == texts(unix_sockets@).map_values(|s: Seq<char>| ListenView::Unix(s))
            + texts(tls_addresses@).map_values(
            |a: Seq<char>| ListenView::Tls { bind_address: a, verify_peer: tls_verify_peer },
        ),
        listen_views(steps@) == listeners(
            texts(unix_sockets@),
            texts(tls_addresses@),
            tls_verify_peer,
        ),
{
    let ghost unix = texts(unix_sockets@).map_values(|s: Seq<char>| ListenView::Unix(s));
    let ghost tls = texts(tls_addresses@).map_values(
        |a: Seq<char>| ListenView::Tls { bind_address: a, verify_peer: tls_verify_peer },
    );
    let mut steps: Vec<ListenStep> = Vec::new();
    let mut i: usize = 0;
    assert(listen_views(steps@) == unix.take(0));
    while i < unix_sockets.len()
        invariant
            i <= unix_sockets@.len(),
            unix == texts(unix_sockets@).map_values(|s: Seq<char>| ListenView::Unix(s)),
            listen_views(steps@) == unix.take(i as int),
        decreases unix_sockets@.len() - i,
    {
        let socket = unix_sockets[i].as_str().to_owned();
        let ghost before = listen_views(steps@);
        steps.push(ListenStep::Unix(socket));
        assert(unix[i as int] == ListenView::Unix(unix_sockets@[i as int]@));
        assert(listen_views(steps@) == before.push(unix[i as int]));
        i = i + 1;
        assert(listen_views(steps@) == unix.take(i as int));
    }
    assert(unix.take(i as int) == unix);
    let mut j: usize = 0;
    assert(listen_views(steps@) == unix + tls.take(0));
    while j < tls_addresses.len()
        invariant
            j <= tls_addresses@.len(),
            tls == texts(tls_addresses@).map_values(
                |a: Seq<char>| ListenView::Tls { bind_address: a, verify_peer: tls_verify_peer },
            ),
            listen_views(steps@) == unix + tls.take(j as int),
        decreases tls_addresses@.len() - j,
    {
        let bind_address = tls_addresses[j].as_str().to_owned();
        let ghost before = listen_views(steps@);
        steps.push(ListenStep::Tls { bind_address, verify_peer: tls_verify_peer });
        assert(listen_views(steps@) == before.push(tls[j as int]));
        j = j + 1;
        assert(listen_views(steps@) == unix + tls.take(j as int));
    }
    assert(tls.take(j as int) == tls);
    steps
}

/// Whether a domain has a pane, given the domains that the panes belong to.
pub fn have_panes_in_domain(pane_domains: &Vec<usize>, domain: usize) -> (r: bool)
    ensures
        r == pane_domains@.contains(domain),
{
    let mut i: usize = 0;
    while i < pane_domains.len()
        invariant
            i <= pane_domains@.len(),
            forall|j: int| 0 <= j < i ==> pane_domains@[j] != domain,
        decreases pane_domains@.len() - i,
    {
        if pane_domains[i] == domain {
            return true;
        }
        i = i + 1;
    }
    false
}

/// The parts of bringing the multiplexer up, in order.
#[derive(Debug, Clone, Copy, PartialEq, Eq, Structural)]
pub enum MuxPhase {
    UpdateDomains,
    /// Have the domains updated whenever the configuration changes.
    SubscribeToReload,
    /// Let the user's hooks run.
    StartupEvent,
    /// See whether the default domain has panes.
    LookForPanes,
    Attach,
    SpawnFirstPane,
    Running,
    Failed,
}

impl MuxPhase {
    pub open spec fn following(self, succeeded: bool, have_panes: bool) -> MuxPhase {
        match self {
            MuxPhase::UpdateDomains => if succeeded {
                MuxPhase::SubscribeToReload
            } else {
                MuxPhase::Failed
            },
            MuxPhase::SubscribeToReload => MuxPhase::StartupEvent,
            MuxPhase::StartupEvent => MuxPhase::LookForPanes,
            MuxPhase::LookForPanes => if have_panes {
                MuxPhase::Running
            } else {
                MuxPhase::Attach
            },
            MuxPhase::Attach => if succeeded {
                MuxPhase::SpawnFirstPane
            } else {
                MuxPhase::Failed
            },
            MuxPhase::SpawnFirstPane => if succeeded {
                MuxPhase::Running
            } else {
                MuxPhase::Failed
            },
            _ => self,
        }
    }

    /// The part that follows. A hook that fails does not stop the server, and a
    /// first pane is only made where the default domain has none.
    pub fn next(self, succeeded: bool, have_panes: bool) -> (r: MuxPhase)
        ensures
            r == self.following(succeeded, have_panes),
    {
        match self {
            MuxPhase::UpdateDomains if !succeeded => MuxPhase::Failed,
            MuxPhase::UpdateDomains => MuxPhase::SubscribeToReload,
            MuxPhase::SubscribeToReload => MuxPhase::StartupEvent,
            MuxPhase::StartupEvent => MuxPhase::LookForPanes,
            MuxPhase::LookForPanes if have_panes => MuxPhase::Running,
            MuxPhase::LookForPanes => MuxPhase::Attach,
            MuxPhase::Attach if !succeeded => MuxPhase::Failed,
            MuxPhase::Attach => MuxPhase::SpawnFirstPane,
            MuxPhase::SpawnFirstPane if !succeeded => MuxPhase::Failed,
            MuxPhase::SpawnFirstPane => MuxPhase::Running,
            MuxPhase::Running => MuxPhase::Running,
            MuxPhase::Failed => MuxPhase::Failed,
        }
    }
}

/// What the multiplexer starts with.
#[derive(Debug)]
pub struct MuxSetup {
    /// The name of its one domain, which is the default one.
    pub default_domain: String,
}

/// A multiplexer starts with one domain, for this machine.
pub fn init_mux() -> (m: MuxSetup)
    ensures
        m.default_domain@ == "local"@,
{
    MuxSetup { default_domain: "local".to_owned() }
}

/// Makes the main loop of the server. From here on a connection that is
/// accepted can have its work scheduled, and what is scheduled before the loop
/// starts is run in its first turn.
pub fn create_executor(state: &mut SpawnState, doorbell: u64) -> (e: SimpleExecutor)
    ensures
        *final(state) == old(state).after(SpawnOp::SetSchedulers).after(
            SpawnOp::SetDoorbell(doorbell),
        ),
        e == (SimpleExecutor { action: TickAction::Wait }),
{
    SimpleExecutor::new(state, doorbell)
}

/// A first pane is made exactly where the default domain has none, whatever the
/// user's hooks came to.
pub proof fn first_pane_only_where_there_is_none(hook: bool, have_panes: bool)
    ensures
        ({
            let looked = MuxPhase::StartupEvent.following(hook, have_panes).following(
                true,
                have_panes,
            );
            &&& looked is Running <==> have_panes
            &&& looked is Attach <==> !have_panes
        }),
{
}

/// The pump puts out what it read and flushes it before it reads on; it is done
/// when nothing more comes, and an error ends it as it is.
pub proof fn the_pump_writes_before_it_reads(b: Vec<u8>, e: String)
    ensures
        pump_action(PumpEvent::Bytes(b)) is Done <==> b@.len() == 0,
        b@.len() > 0 ==> pump_action(PumpEvent::Bytes(b)) == PumpAction::WriteAll(b),
        pump_action(PumpEvent::Written) is Flush,
        pump_action(PumpEvent::Flushed) is Read,
        pump_action(PumpEvent::Failed(e)) == PumpAction::Fail(e),
{
}

/// The names that mislead are removed whatever the configuration says, and the
/// configured ones besides, and none else.
pub proof fn misleading_variables_are_removed(configured: Seq<Seq<char>>, name: Seq<char>)
    ensures
        misleading_names(configured).contains(name) <==> name == "OLDPWD"@ || name == "PWD"@
            || name == "SHLVL"@ || name == "WEZTERM_PANE"@ || name == "WEZTERM_UNIX_SOCKET"@
            || name == "_"@ || configured.contains(name),
{
    let all = misleading_names(configured);
    assert(all[0] == "OLDPWD"@ && all[1] == "PWD"@ && all[2] == "SHLVL"@);
    assert(all[3] == "WEZTERM_PANE"@ && all[4] == "WEZTERM_UNIX_SOCKET"@ && all[5] == "_"@);
    if configured.contains(name) {
        assert(all[6 + configured.index_of(name)] == name);
    }
    if all.contains(name) {
        let k = all.index_of(name);
        if k >= 6 {
            assert(configured[k - 6] == name);
        }
    }
}

/// Each setting that was given is handed on by a flag of its own, with its name
/// and its value, in the order of the settings.
pub proof fn settings_are_handed_on(v: Seq<(String, String)>, k: int)
    requires
        0 <= k < v.len(),
    ensures
        override_args(v).len() == 2 * v.len(),
        override_args(v)[2 * k] == "--config"@,
        override_args(v)[2 * k + 1] == v[k].0@ + "="@ + v[k].1@,
    decreases v.len(),
{
    let before = override_args(v.drop_last());
    if v.len() > 1 {
        settings_are_handed_on(v.drop_last(), 0);
    }
    if k < v.len() - 1 {
        settings_are_handed_on(v.drop_last(), k);
        assert(override_args(v)[2 * k] == before[2 * k]);
        assert(override_args(v)[2 * k + 1] == before[2 * k + 1]);
        assert(v.drop_last()[k] == v[k]);
    }
}

proof fn lemma_override_len(v: Seq<(String, String)>)
    ensures
        override_args(v).len() == 2 * v.len(),
    decreases v.len(),
{
    if v.len() > 0 {
        lemma_override_len(v.drop_last());
    }
}

proof fn lemma_args(
    a: Seq<Seq<char>>,
    b: Seq<Seq<char>>,
    c: Seq<Seq<char>>,
    d: Seq<Seq<char>>,
    e: Seq<Seq<char>>,
    f: Seq<Seq<char>>,
)
    ensures
        ({
            let s = a + b + c + d + e + f;
            let at_c = a.len() + b.len();
            let at_d = at_c + c.len();
            let at_e = at_d + d.len();
            let at_f = at_e + e.len();
            &&& s.len() == at_f + f.len()
            &&& forall|k: int| 0 <= k < a.len() ==> #[trigger] s[k] == a[k]
            &&& forall|k: int| 0 <= k < b.len() ==> #[trigger] s[a.len() + k] == b[k]
            &&& forall|k: int| 0 <= k < c.len() ==> #[trigger] s[at_c + k] == c[k]
            &&& forall|k: int| 0 <= k < d.len() ==> #[trigger] s[at_d + k] == d[k]
            &&& forall|k: int| 0 <= k < e.len() ==> #[trigger] s[at_e + k] == e[k]
            &&& forall|k: int| 0 <= k < f.len() ==> #[trigger] s[at_f + k] == f[k]
        }),
{
}

/// The background process gets, in this order and each only where it is there:
/// the descriptor of the lock file, the wish to do without a configuration, its
/// file, every setting of the command line, the directory, and the program with
/// its arguments after a pair of dashes. Each value follows its own flag.
pub proof fn the_command_line_is_handed_on(opt: Opt, pid_file: Option<i32>)
    ensures
        ({
            let args = background_args(opt, pid_file);
            let skip: int = if pid_file is Some {
                2
            } else {
                0
            };
            let file = skip + if opt.skip_config {
                1int
            } else {
                0int
            };
            let settings = file + if opt.config_file is Some {
                2int
            } else {
                0int
            };
            let cwd = settings + 2 * opt.config_override@.len();
            let prog = cwd + if opt.cwd is Some {
                2int
            } else {
                0int
            };
            let n = opt.prog@.len();
            &&& pid_file is Some ==> args[0] == "--pid-file-fd"@ && args[1] == signed_decimal(
                pid_file->0,
            )
            &&& opt.skip_config ==> args[skip] == "-n"@
            &&& opt.config_file is Some ==> args[file] == "--config-file"@ && args[file + 1]
                == opt.config_file->0@
            &&& forall|k: int|
                0 <= k < 2 * opt.config_override@.len() ==> #[trigger] args[settings + k]
                    == override_args(opt.config_override@)[k]
            &&& opt.cwd is Some ==> args[cwd] == "--cwd"@ && args[cwd + 1] == opt.cwd->0@
            &&& args.len() == prog + if n > 0 {
                n + 1
            } else {
                0
            }
            &&& n > 0 ==> args[prog] == "--"@
            &&& forall|k: int| 0 <= k < n ==> (#[trigger] args[prog + 1 + k]) == opt.prog@[k]@
        }),
{
    let args = background_args(opt, pid_file);
    let a = match pid_file {
        Some(fd) => seq!["--pid-file-fd"@, signed_decimal(fd)],
        None => Seq::empty(),
    };
    let b = if opt.skip_config {
        seq!["-n"@]
    } else {
        Seq::empty()
    };
    let c = flag_args("--config-file"@, opt.config_file);
    let d = override_args(opt.config_override@);
    let e = flag_args("--cwd"@, opt.cwd);
    let f = if opt.prog@.len() > 0 {
        seq!["--"@] + texts(opt.prog@)
    } else {
        Seq::empty()
    };
    lemma_override_len(opt.config_override@);
    lemma_args(a, b, c, d, e, f);
    assert(args == a + b + c + d + e + f);
    let at_b = a.len() as int;
    let at_c = at_b + b.len();
    let at_d = at_c + c.len();
    let at_e = at_d + d.len();
    let at_f = at_e + e.len();
    assert(b.len() > 0 ==> args[at_b + 0] == b[0]);
    assert(c.len() > 0 ==> args[at_c + 0] == c[0] && args[at_c + 1] == c[1]);
    assert(e.len() > 0 ==> args[at_e + 0] == e[0] && args[at_e + 1] == e[1]);
    assert(f.len() > 0 ==> args[at_f + 0] == f[0]);
    assert forall|k: int| 0 <= k < opt.prog@.len() implies (#[trigger] args[at_f + 1 + k])
        == opt.prog@[k]@ by {
        assert(args[at_f + (1 + k)] == f[1 + k]);
    }
}

/// The server starts in its order, and goes to the background where it is to
/// before it touches anything else; a part that fails ends it. Starting over in
/// the background is the end of this process.
pub proof fn the_server_starts_in_order(p: ServerPhase, daemonize: bool)
    ensures
        ServerPhase::CloseOnExec.following(daemonize, true) is Bootstrap,
        ServerPhase::Bootstrap.following(true, true) is Daemonize,
        ServerPhase::Bootstrap.following(false, true) is ScrubEnv,
        ServerPhase::Daemonize.following(daemonize, true) is Reexec,
        ServerPhase::Reexec.following(daemonize, true) is Failed,
        ServerPhase::ScrubEnv.following(daemonize, true) is BlobLeases,
        ServerPhase::BlobLeases.following(daemonize, true) is InitMux,
        ServerPhase::InitMux.following(daemonize, true) is SpawnListeners,
        ServerPhase::SpawnListeners.following(daemonize, true) is ExecutorLoop,
        p.following(daemonize, false) is Failed,
{
}

/// The multiplexer comes up in its order. The domains have to be there and, where
/// a first pane is to be made, it has to come about; the subscription and the
/// user's hooks cannot stop it.
pub proof fn the_multiplexer_comes_up_in_order(succeeded: bool, have_panes: bool)
    ensures
        MuxPhase::UpdateDomains.following(succeeded, have_panes) is SubscribeToReload <==> succeeded,
        MuxPhase::UpdateDomains.following(succeeded, have_panes) is Failed <==> !succeeded,
        MuxPhase::SubscribeToReload.following(succeeded, have_panes) is StartupEvent,
        MuxPhase::StartupEvent.following(succeeded, have_panes) is LookForPanes,
        MuxPhase::Attach.following(succeeded, have_panes) is SpawnFirstPane <==> succeeded,
        MuxPhase::Attach.following(succeeded, have_panes) is Failed <==> !succeeded,
        MuxPhase::SpawnFirstPane.following(succeeded, have_panes) is Running <==> succeeded,
        MuxPhase::SpawnFirstPane.following(succeeded, have_panes) is Failed <==> !succeeded,
{
}

/// The first program is the one that was asked for, with its arguments, in the
/// directory that was asked for; where only a directory was, it is the default
/// one there, and where neither was, nothing is said of it.
pub proof fn the_program_asked_for_is_run(prog: Vec<String>, cwd: Option<String>)
    ensures
        ({
            let c = command_asked_for(prog, cwd);
            &&& c is None <==> prog@.len() == 0 && cwd is None
            &&& c is Some ==> c->0.cwd == cwd
            &&& prog@.len() > 0 ==> c is Some && c->0.argv == Some(prog)
            &&& prog@.len() == 0 && cwd is Some ==> c is Some && c->0.argv is None
        }),
{
}

/// Every unix domain is listened on and then every TLS server, each at its own
/// place and in the order they are configured; whether the certificates of
/// clients are verified is as the domain says, for every one of them.
pub proof fn everything_configured_is_listened_on(
    unix_sockets: Seq<Seq<char>>,
    tls_addresses: Seq<Seq<char>>,
    tls_verify_peer: bool,
)
    ensures
        ({
            let steps = listeners(unix_sockets, tls_addresses, tls_verify_peer);
            let n = unix_sockets.len();
            &&& steps.len() == n + tls_addresses.len()
            &&& forall|i: int|
                0 <= i < n ==> (#[trigger] steps[i]) == ListenView::Unix(unix_sockets[i])
            &&& forall|i: int|
                n <= i < steps.len() ==> (#[trigger] steps[i]) == (ListenView::Tls {
                    bind_address: tls_addresses[i - n],
                    verify_peer: tls_verify_peer,
                })
        }),
{
}

} // verus!
