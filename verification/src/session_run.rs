//! Bringing an SSH session up: which library, which options in which order, how
//! the host is reached, and the way from the first banner to the request loop.

use crate::config_map::ConfigMap;
use crate::session_inner::option_is;
use crate::text::{
    decimal, decimal_text, exact_duration, exact_duration_text, is_number_error, join2, join3,
    parse_u16, text_of_option, texts, unsigned_value, NumberError,
};
use vstd::prelude::*;

verus! {

/// How long what was sent may go unacknowledged before the operating system
/// declares the connection dead, in seconds.
pub const TRANSPORT_UNACKED_LIMIT: u64 = 20;

/// How long a blocking call of the SSH library may wait, in seconds.
pub const BLOCKING_CALL_LIMIT: u64 = 60;

/// The SSH library to use.
#[derive(Debug)]
pub enum Backend {
    Libssh,
    Ssh2,
    /// The option names neither.
    Invalid(String),
}

/// What the option for the SSH library says, if it is set.
pub open spec fn backend_named(config: Map<Seq<char>, Seq<char>>) -> Option<Seq<char>> {
    if config.dom().contains("wezterm_ssh_backend"@) {
        Some(config["wezterm_ssh_backend"@])
    } else {
        None
    }
}

/// The library that the options name; libssh where they name none.
pub fn choose_backend(config: &ConfigMap) -> (b: Backend)
    requires
        config.wf(),
    ensures
        ({
            let name = "wezterm_ssh_backend"@;
            match b {
                Backend::Libssh => !config@.dom().contains(name) || config@[name] == "libssh"@,
                Backend::Ssh2 => config@.dom().contains(name) && config@[name] == "ssh2"@,
                Backend::Invalid(v) => config@.dom().contains(name) && v@ == config@[name] && v@
                    != "libssh"@ && v@ != "ssh2"@,
            }
        }),
        b is Libssh <==> backend_named(config@) is None || backend_named(config@) == Some(
            "libssh"@,
        ),
        b is Ssh2 <==> backend_named(config@) == Some("ssh2"@),
        b is Invalid ==> backend_named(config@) == Some(b->Invalid_0@),
{
    proof {
        reveal_strlit("libssh");
        reveal_strlit("ssh2");
        assert("libssh"@.len() != "ssh2"@.len());
    }
    match config.get("wezterm_ssh_backend") {
        None => Backend::Libssh,
        Some(v) => {
            if config.has("wezterm_ssh_backend", "libssh") {
                Backend::Libssh
            } else if config.has("wezterm_ssh_backend", "ssh2") {
                Backend::Ssh2
            } else {
                Backend::Invalid(v)
            }
        },
    }
}

/// What is reported of an option that names no SSH library.
pub fn invalid_backend_message(value: &str) -> (s: String)
    ensures
        s@ == "invalid wezterm_ssh_backend value: "@ + value@
            + ", expected either `ssh2` or `libssh`"@,
{
    join3("invalid wezterm_ssh_backend value: ", value, ", expected either `ssh2` or `libssh`")
}

/// Who connects to what.
#[derive(Debug)]
pub struct Target {
    pub hostname: String,
    pub user: String,
    pub port: u16,
}

/// Why there is no target.
#[derive(Debug, Clone, Copy, PartialEq, Eq, Structural)]
pub enum TargetError {
    NoHostname,
    NoUser,
    NoPort,
    /// The port is no number that a port can have.
    BadPort(NumberError),
}

impl TargetError {
    pub open spec fn text(self) -> Seq<char> {
        match self {
            TargetError::NoHostname => "hostname not present in config"@,
            TargetError::NoUser => "username not present in config"@,
            TargetError::NoPort => "port is always set in config loader"@,
            TargetError::BadPort(e) => e.text(),
        }
    }

    /// What is said of it.
    pub fn message(self) -> (s: String)
        ensures
            s@ == self.text(),
    {
        match self {
            TargetError::NoHostname => "hostname not present in config".to_owned(),
            TargetError::NoUser => "username not present in config".to_owned(),
            TargetError::NoPort => "port is always set in config loader".to_owned(),
            TargetError::BadPort(e) => e.message(),
        }
    }
}

/// The target that the options describe.
pub fn read_target(config: &ConfigMap) -> (r: Result<Target, TargetError>)
    requires
        config.wf(),
    ensures
        match r {
            Ok(t) => config@.dom().contains("hostname"@) && t.hostname@ == config@["hostname"@]
                && config@.dom().contains("user"@) && t.user@ == config@["user"@]
                && config@.dom().contains("port"@) && unsigned_value(
                config@["port"@],
                u16::MAX as nat,
            ) == Some(t.port as nat),
            Err(TargetError::NoHostname) => !config@.dom().contains("hostname"@),
            Err(TargetError::NoUser) => config@.dom().contains("hostname"@)
                && !config@.dom().contains("user"@),
            Err(TargetError::NoPort) => config@.dom().contains("hostname"@)
                && config@.dom().contains("user"@) && !config@.dom().contains("port"@),
            Err(TargetError::BadPort(e)) => config@.dom().contains("hostname"@)
                && config@.dom().contains("user"@) && config@.dom().contains("port"@)
                && unsigned_value(config@["port"@], u16::MAX as nat) is None && is_number_error(
                config@["port"@],
                u16::MAX as nat,
                e,
            ),
        },
{
    let hostname = match config.get("hostname") {
        Some(v) => v,
        None => {
            return Err(TargetError::NoHostname);
        },
    };
    let user = match config.get("user") {
        Some(v) => v,
        None => {
            return Err(TargetError::NoUser);
        },
    };
    let port = match config.get("port") {
        Some(v) => v,
        None => {
            return Err(TargetError::NoPort);
        },
    };
    match parse_u16(port.as_str()) {
        Ok(port) => Ok(Target { hostname, user, port }),
        Err(e) => Err(TargetError::BadPort(e)),
    }
}

/// The first banner, which names the library and the target.
pub fn connect_banner(libssh: bool, target: &Target) -> (s: String)
    ensures
        s@ == (if libssh {
            "Using libssh-rs to connect to "@
        } else {
            "Using ssh2 to connect to "@
        }) + target.user@ + "@"@ + target.hostname@ + ":"@ + decimal(target.port as nat),
{
    let mut s = if libssh {
        "Using libssh-rs to connect to ".to_owned()
    } else {
        "Using ssh2 to connect to ".to_owned()
    };
    s.append(target.user.as_str());
    s.append("@");
    s.append(target.hostname.as_str());
    s.append(":");
    s.append(decimal_text(target.port as u64).as_str());
    s
}

/// One setting of a libssh session.
#[derive(Debug)]
pub enum LibsshOption {
    /// Log every packet, through this program's own log.
    LogPackets,
    Hostname(String),
    User(String),
    Port(u16),
    /// Read the user's ssh configuration.
    ParseConfig,
    IdentityAgent(String),
    AddIdentity(String),
    KnownHosts(String),
    PublicKeyAcceptedTypes(String),
    BindAddress(String),
    HostKeys(String),
    /// Bound every blocking call, in seconds.
    Timeout(u64),
}

/// What a setting says.
pub enum OptionView {
    LogPackets,
    Hostname(Seq<char>),
    User(Seq<char>),
    Port(u16),
    ParseConfig,
    IdentityAgent(Seq<char>),
    AddIdentity(Seq<char>),
    KnownHosts(Seq<char>),
    PublicKeyAcceptedTypes(Seq<char>),
    BindAddress(Seq<char>),
    HostKeys(Seq<char>),
    Timeout(u64),
}

impl View for LibsshOption {
    type V = OptionView;

    open spec fn view(&self) -> OptionView {
        match *self {
            LibsshOption::LogPackets => OptionView::LogPackets,
            LibsshOption::Hostname(s) => OptionView::Hostname(s@),
            LibsshOption::User(s) => OptionView::User(s@),
            LibsshOption::Port(p) => OptionView::Port(p),
            LibsshOption::ParseConfig => OptionView::ParseConfig,
            LibsshOption::IdentityAgent(s) => OptionView::IdentityAgent(s@),
            LibsshOption::AddIdentity(s) => OptionView::AddIdentity(s@),
            LibsshOption::KnownHosts(s) => OptionView::KnownHosts(s@),
            LibsshOption::PublicKeyAcceptedTypes(s) => OptionView::PublicKeyAcceptedTypes(s@),
            LibsshOption::BindAddress(s) => OptionView::BindAddress(s@),
            LibsshOption::HostKeys(s) => OptionView::HostKeys(s@),
            LibsshOption::Timeout(t) => OptionView::Timeout(t),
        }
    }
}

pub open spec fn option_views(v: Seq<LibsshOption>) -> Seq<OptionView> {
    v.map_values(|o: LibsshOption| o@)
}

/// A list with the value of an option in it, or an empty one.
pub open spec fn if_set(
    config: Map<Seq<char>, Seq<char>>,
    name: Seq<char>,
    make: spec_fn(Seq<char>) -> OptionView,
) -> Seq<OptionView> {
    if config.dom().contains(name) {
        seq![make(config[name])]
    } else {
        Seq::empty()
    }
}

/// The settings of a libssh session, in order. Whatever the user's ssh
/// configuration says comes before everything but the target, and the bound on
/// blocking calls comes last, so that the configuration cannot lift it.
pub open spec fn libssh_settings(
    config: Map<Seq<char>, Seq<char>>,
    hostname: Seq<char>,
    user: Seq<char>,
    port: u16,
    identities: Seq<Seq<char>>,
    known_hosts: Seq<Seq<char>>,
) -> Seq<OptionView> {
    let log = if option_is(config, "wezterm_ssh_verbose"@, "true"@) {
        seq![OptionView::LogPackets]
    } else {
        Seq::empty()
    };
    let target = seq![
        OptionView::Hostname(hostname),
        OptionView::User(user),
        OptionView::Port(port),
        OptionView::ParseConfig,
    ];
    let keys = identities.map_values(|f: Seq<char>| OptionView::AddIdentity(f));
    let hosts = if known_hosts.len() > 0 {
        seq![OptionView::KnownHosts(known_hosts[0])]
    } else {
        Seq::empty()
    };
    log + target + if_set(
        config,
        "identityagent"@,
        |s: Seq<char>| OptionView::IdentityAgent(s),
    ) + keys + hosts + if_set(
        config,
        "pubkeyacceptedtypes"@,
        |s: Seq<char>| OptionView::PublicKeyAcceptedTypes(s),
    ) + if_set(config, "bindaddress"@, |s: Seq<char>| OptionView::BindAddress(s)) + if_set(
        config,
        "hostkeyalgorithms"@,
        |s: Seq<char>| OptionView::HostKeys(s),
    ) + seq![OptionView::Timeout(BLOCKING_CALL_LIMIT)]
}

fn push_option(options: &mut Vec<LibsshOption>, o: LibsshOption)
    ensures
        option_views(final(options)@) == option_views(old(options)@).push(o@),
{
    options.push(o);
    assert(option_views(options@) == option_views(old(options)@).push(o@));
}

/// Whether the options ask for a detailed log.
pub fn is_verbose(config: &ConfigMap) -> (r: bool)
    requires
        config.wf(),
    ensures
        r == config.is_set_to("wezterm_ssh_verbose"@, "true"@),
{
    config.has("wezterm_ssh_verbose", "true")
}

/// The settings of a libssh session for `target`. The identity and known hosts
/// files are the parts of the options that list them; of the known hosts files
/// only the first is used.
#[verifier::spinoff_prover]
pub fn libssh_options(
    config: &ConfigMap,
    target: &Target,
    identities: &Vec<String>,
    known_hosts: &Vec<String>,
) -> (options: Vec<LibsshOption>)
    requires
        config.wf(),
    ensures
        option_views(options@) == libssh_settings(
            config@,
            target.hostname@,
            target.user@,
            target.port,
            texts(identities@),
            texts(known_hosts@),
        ),
{
    let mut options: Vec<LibsshOption> = Vec::new();
    assert(option_views(options@) == Seq::<OptionView>::empty());
    if is_verbose(config) {
        push_option(&mut options, LibsshOption::LogPackets);
    }
    let ghost log = option_views(options@);
    push_option(&mut options, LibsshOption::Hostname(target.hostname.clone()));
    push_option(&mut options, LibsshOption::User(target.user.clone()));
    push_option(&mut options, LibsshOption::Port(target.port));
    push_option(&mut options, LibsshOption::ParseConfig);
    assert(option_views(options@) == log + seq![
        OptionView::Hostname(target.hostname@),
        OptionView::User(target.user@),
        OptionView::Port(target.port),
        OptionView::ParseConfig,
    ]);
    let ghost so_far = option_views(options@);
    if let Some(agent) = config.get("identityagent") {
        push_option(&mut options, LibsshOption::IdentityAgent(agent));
    }
    let ghost part = if_set(
        config@,
        "identityagent"@,
        |s: Seq<char>| OptionView::IdentityAgent(s),
    );
    assert(option_views(options@) == so_far + part);
    let ghost so_far = option_views(options@);
    let mut i: usize = 0;
    let ghost keys = texts(identities@).map_values(|f: Seq<char>| OptionView::AddIdentity(f));
    while i < identities.len()
        invariant
            i <= identities.len(),
            keys == texts(identities@).map_values(|f: Seq<char>| OptionView::AddIdentity(f)),
            option_views(options@) == so_far + keys.take(i as int),
        decreases identities.len() - i,
    {
        push_option(&mut options, LibsshOption::AddIdentity(identities[i].clone()));
        i = i + 1;
        assert(option_views(options@) == so_far + keys.take(i as int));
    }
    assert(keys.take(i as int) == keys);
    let ghost so_far = option_views(options@);
    let ghost hosts = if known_hosts@.len() > 0 {
        seq![OptionView::KnownHosts(texts(known_hosts@)[0])]
    } else {
        Seq::empty()
    };
    if known_hosts.len() > 0 {
        push_option(&mut options, LibsshOption::KnownHosts(known_hosts[0].clone()));
    }
    assert(option_views(options@) == so_far + hosts);
    let ghost so_far = option_views(options@);
    if let Some(types) = config.get("pubkeyacceptedtypes") {
        push_option(&mut options, LibsshOption::PublicKeyAcceptedTypes(types));
    }
    assert(option_views(options@) == so_far + if_set(
        config@,
        "pubkeyacceptedtypes"@,
        |s: Seq<char>| OptionView::PublicKeyAcceptedTypes(s),
    ));
    let ghost so_far = option_views(options@);
    if let Some(bind_addr) = config.get("bindaddress") {
        push_option(&mut options, LibsshOption::BindAddress(bind_addr));
    }
    assert(option_views(options@) == so_far + if_set(
        config@,
        "bindaddress"@,
        |s: Seq<char>| OptionView::BindAddress(s),
    ));
    let ghost so_far = option_views(options@);
    if let Some(host_key) = config.get("hostkeyalgorithms") {
        push_option(&mut options, LibsshOption::HostKeys(host_key));
    }
    assert(option_views(options@) == so_far + if_set(
        config@,
        "hostkeyalgorithms"@,
        |s: Seq<char>| OptionView::HostKeys(s),
    ));
    let ghost so_far = option_views(options@);
    push_option(&mut options, LibsshOption::Timeout(BLOCKING_CALL_LIMIT));
    assert(option_views(options@) == so_far + seq![OptionView::Timeout(BLOCKING_CALL_LIMIT)]);
    options
}

/// How the host is reached.
#[derive(Debug)]
pub enum Reach {
    /// Connect to one of its addresses.
    Direct,
    /// Run a program and talk through it; with `use_fdpass` it hands over a
    /// connected socket.
    Proxy { program: String, args: Vec<String>, use_fdpass: bool },
}

/// The command that reaches the host, if there is one and it is not `none`.
pub open spec fn proxy_command(config: Map<Seq<char>, Seq<char>>) -> Option<Seq<char>> {
    if config.dom().contains("proxycommand"@) && config["proxycommand"@] != "none"@ {
        Some(config["proxycommand"@])
    } else {
        None
    }
}

/// The program that runs the command.
pub open spec fn proxy_program(windows: bool, comspec: Option<String>) -> Seq<char> {
    if !windows {
        "sh"@
    } else {
        match comspec {
            Some(c) => c@,
            None => "cmd"@,
        }
    }
}

/// The arguments by which it runs the command.
pub open spec fn proxy_args(windows: bool, command: Seq<char>) -> Seq<Seq<char>> {
    if windows {
        seq!["/c"@, command]
    } else {
        seq!["-c"@, "exec "@ + command]
    }
}

/// How the host is reached. On Windows the program is the command interpreter
/// of the environment, elsewhere it is `sh`.
pub fn plan_reach(config: &ConfigMap, windows: bool, comspec: Option<String>) -> (r: Reach)
    requires
        config.wf(),
    ensures
        match r {
            Reach::Direct => proxy_command(config@) is None,
            Reach::Proxy { program, args, use_fdpass } => {
                &&& proxy_command(config@) is Some
                &&& program@ == (if windows {
                    match comspec {
                        Some(c) => c@,
                        None => "cmd"@,
                    }
                } else {
                    "sh"@
                })
                &&& texts(args@) == (if windows {
                    seq!["/c"@, proxy_command(config@)->0]
                } else {
                    seq!["-c"@, "exec "@ + proxy_command(config@)->0]
                })
                &&& use_fdpass == (!windows && option_is(config@, "proxyusefdpass"@, "yes"@))
                &&& program@ == proxy_program(windows, comspec)
                &&& texts(args@) == proxy_args(windows, proxy_command(config@)->0)
            },
        },
{
    if config.has("proxycommand", "none") {
        return Reach::Direct;
    }
    let command = match config.get("proxycommand") {
        Some(c) => c,
        None => {
            return Reach::Direct;
        },
    };
    let use_fdpass = !windows && config.has("proxyusefdpass", "yes");
    let mut args: Vec<String> = Vec::new();
    if windows {
        let program = match comspec {
            Some(c) => c,
            None => "cmd".to_owned(),
        };
        args.push("/c".to_owned());
        args.push(command);
        assert(texts(args@) == seq!["/c"@, proxy_command(config@)->0]);
        Reach::Proxy { program, args, use_fdpass }
    } else {
        let mut line = "exec ".to_owned();
        line.append(command.as_str());
        args.push("-c".to_owned());
        args.push(line);
        assert(texts(args@) == seq!["-c"@, "exec "@ + proxy_command(config@)->0]);
        Reach::Proxy { program: "sh".to_owned(), args, use_fdpass }
    }
}

/// What is done to reach the host.
#[derive(Debug, Clone, Copy, PartialEq, Eq, Structural)]
pub enum ReachStep {
    SpawnProxy,
    /// Find an address of the host.
    Resolve,
    /// Find an address of this machine to connect from.
    ResolveBind,
    Bind,
}

impl ReachStep {
    pub open spec fn text(self, subject: Seq<char>) -> Seq<char> {
        match self {
            ReachStep::SpawnProxy => "spawning ProxyCommand "@ + subject,
            ReachStep::Resolve => "resolving address for "@ + subject,
            ReachStep::ResolveBind => "resolving bind address "@ + subject,
            ReachStep::Bind => "binding to "@ + subject,
        }
    }

    /// What is said to have been done when a step failed; `subject` is the
    /// command, the host, or the address as it is shown.
    pub fn context(self, subject: &str) -> (s: String)
        ensures
            s@ == self.text(subject@),
    {
        match self {
            ReachStep::SpawnProxy => join2("spawning ProxyCommand ", subject),
            ReachStep::Resolve => join2("resolving address for ", subject),
            ReachStep::ResolveBind => join2("resolving bind address ", subject),
            ReachStep::Bind => join2("binding to ", subject),
        }
    }
}

/// What is said to have been done when the host could not be connected to:
/// `addr` is the address as it is shown, and the limit is in seconds.
pub fn connect_context(target: &Target, addr: &str, limit: u64) -> (s: String)
    ensures
        s@ == "Connecting to "@ + target.hostname@ + ":"@ + decimal(target.port as nat) + " ("@
            + addr@ + ") within "@ + exact_duration(limit as nat * 1_000_000_000),
{
    let mut s = "Connecting to ".to_owned();
    s.append(target.hostname.as_str());
    s.append(":");
    s.append(decimal_text(target.port as u64).as_str());
    s.append(" (");
    s.append(addr);
    s.append(") within ");
    s.append(exact_duration_text(limit as u128 * 1_000_000_000).as_str());
    s
}

/// The systems that count the unacknowledged limit differently.
#[derive(Debug, Clone, Copy, PartialEq, Eq, Structural)]
pub enum Platform {
    Linux,
    Apple,
    Other,
}

/// What the platform's option for unacknowledged data is set to.
pub open spec fn unacked_setting(platform: Platform, seconds: u64) -> Option<u32> {
    let count: int = if platform is Linux {
        seconds * 1000
    } else {
        seconds as int
    };
    if platform is Other {
        None
    } else if count <= u32::MAX {
        Some(count as u32)
    } else {
        Some(u32::MAX)
    }
}

/// What the platform's option for unacknowledged data is set to for a limit in
/// seconds: milliseconds on Linux, seconds on Apple systems, and nothing
/// elsewhere.
pub fn unacked_data_limit(platform: Platform, seconds: u64) -> (r: Option<u32>)
    ensures
        r == match platform {
            Platform::Linux => Some(
                if seconds * 1000 <= u32::MAX {
                    (seconds * 1000) as u32
                } else {
                    u32::MAX
                },
            ),
            Platform::Apple => Some(
                if seconds <= u32::MAX {
                    seconds as u32
                } else {
                    u32::MAX
                },
            ),
            Platform::Other => None::<u32>,
        },
        r == unacked_setting(platform, seconds),
{
    let bound: u128 = u32::MAX as u128;
    match platform {
        Platform::Linux => {
            let millis: u128 = seconds as u128 * 1000;
            if millis <= bound {
                Some(millis as u32)
            } else {
                Some(u32::MAX)
            }
        },
        Platform::Apple => if seconds as u128 <= bound {
            Some(seconds as u32)
        } else {
            Some(u32::MAX)
        },
        Platform::Other => None,
    }
}

/// The way from the first banner to the request loop.
#[derive(Debug, Clone, Copy, PartialEq, Eq, Structural)]
pub enum RunPhase {
    /// Tell the user which library connects to what.
    Announce,
    CreateSession,
    ApplyOptions,
    ConnectHost,
    Handshake,
    /// Read the server's banner and tell the user.
    ServerBanner,
    VerifyHost,
    Authenticate,
    /// Read the issue banner, which there need not be.
    ReadIssue,
    /// Tell the user what it says.
    AnnounceIssue,
    AnnounceAuthenticated,
    /// Accept agent channels, where the agent is forwarded; then stop blocking.
    Prepare,
    RequestLoop,
    Failed,
}

/// The phases with libssh, in order.
pub open spec fn libssh_phases() -> Seq<RunPhase> {
    seq![
        RunPhase::Announce,
        RunPhase::CreateSession,
        RunPhase::ApplyOptions,
        RunPhase::ConnectHost,
        RunPhase::Handshake,
        RunPhase::ServerBanner,
        RunPhase::VerifyHost,
        RunPhase::Authenticate,
        RunPhase::ReadIssue,
        RunPhase::AnnounceIssue,
        RunPhase::AnnounceAuthenticated,
        RunPhase::Prepare,
        RunPhase::RequestLoop,
    ]
}

/// The phases with libssh2, in order: the host is connected to before there is
/// a session, and no issue banner is read.
pub open spec fn ssh2_phases() -> Seq<RunPhase> {
    seq![
        RunPhase::Announce,
        RunPhase::ConnectHost,
        RunPhase::CreateSession,
        RunPhase::Handshake,
        RunPhase::ServerBanner,
        RunPhase::VerifyHost,
        RunPhase::Authenticate,
        RunPhase::AnnounceAuthenticated,
        RunPhase::Prepare,
        RunPhase::RequestLoop,
    ]
}

pub open spec fn phases(libssh: bool) -> Seq<RunPhase> {
    if libssh {
        libssh_phases()
    } else {
        ssh2_phases()
    }
}

/// The phase after `phase`, whose outcome is known.
pub open spec fn phase_after(libssh: bool, phase: RunPhase, succeeded: bool) -> RunPhase {
    let list = phases(libssh);
    if phase is ReadIssue && !succeeded {
        RunPhase::AnnounceAuthenticated
    } else if !succeeded {
        RunPhase::Failed
    } else {
        list[list.index_of(phase) + 1]
    }
}

impl RunPhase {
    pub open spec fn text(self, libssh: bool, host: Seq<char>, port: u16) -> Option<Seq<char>> {
        let address = host + ":"@ + decimal(port as nat);
        match self {
            RunPhase::Announce => Some("notifying user of banner"@),
            RunPhase::Handshake => Some(
                if libssh {
                    "Connecting to "@ + address
                } else {
                    "ssh handshake with "@ + address
                },
            ),
            RunPhase::ServerBanner => Some("notifying user of banner"@),
            RunPhase::VerifyHost => if libssh {
                None
            } else {
                Some("host verification"@)
            },
            RunPhase::Authenticate => if libssh {
                None
            } else {
                Some("authentication"@)
            },
            RunPhase::AnnounceIssue => Some("notifying user of banner"@),
            RunPhase::AnnounceAuthenticated => Some("notifying user that session is authenticated"@),
            _ => None,
        }
    }

    /// What is said to have been done when a phase failed, where it is more than
    /// its own error. Of the server's banner it is what is said where the user
    /// could not be told.
    pub fn context(self, libssh: bool, target: &Target) -> (s: Option<String>)
        ensures
            text_of_option(s) == self.text(libssh, target.hostname@, target.port),
    {
        match self {
            RunPhase::Announce => Some("notifying user of banner".to_owned()),
            RunPhase::Handshake => {
                let mut s = target.hostname.clone();
                s.append(":");
                s.append(decimal_text(target.port as u64).as_str());
                Some(
                    if libssh {
                        join2("Connecting to ", s.as_str())
                    } else {
                        join2("ssh handshake with ", s.as_str())
                    },
                )
            },
            RunPhase::ServerBanner => Some("notifying user of banner".to_owned()),
            RunPhase::VerifyHost => if libssh {
                None
            } else {
                Some("host verification".to_owned())
            },
            RunPhase::Authenticate => if libssh {
                None
            } else {
                Some("authentication".to_owned())
            },
            RunPhase::AnnounceIssue => Some("notifying user of banner".to_owned()),
            RunPhase::AnnounceAuthenticated => Some(
                "notifying user that session is authenticated".to_owned(),
            ),
            _ => None,
        }
    }

    /// The next phase. Whatever fails ends the session, but for the issue
    /// banner, which is passed over where there is none.
    pub fn next(self, libssh: bool, succeeded: bool) -> (r: RunPhase)
        requires
            phases(libssh).contains(self),
            !(self is RequestLoop),
        ensures
            r == phase_after(libssh, self, succeeded),
    {
        proof {
            let list = phases(libssh);
            lemma_phase_index(libssh, list.index_of(self));
        }
        if !succeeded {
            return if self == RunPhase::ReadIssue {
                RunPhase::AnnounceAuthenticated
            } else {
                RunPhase::Failed
            };
        }
        match self {
            RunPhase::Announce => if libssh {
                RunPhase::CreateSession
            } else {
                RunPhase::ConnectHost
            },
            RunPhase::CreateSession => if libssh {
                RunPhase::ApplyOptions
            } else {
                RunPhase::Handshake
            },
            RunPhase::ApplyOptions => RunPhase::ConnectHost,
            RunPhase::ConnectHost => if libssh {
                RunPhase::Handshake
            } else {
                RunPhase::CreateSession
            },
            RunPhase::Handshake => RunPhase::ServerBanner,
            RunPhase::ServerBanner => RunPhase::VerifyHost,
            RunPhase::VerifyHost => RunPhase::Authenticate,
            RunPhase::Authenticate => if libssh {
                RunPhase::ReadIssue
            } else {
                RunPhase::AnnounceAuthenticated
            },
            RunPhase::ReadIssue => RunPhase::AnnounceIssue,
            RunPhase::AnnounceIssue => RunPhase::AnnounceAuthenticated,
            RunPhase::AnnounceAuthenticated => RunPhase::Prepare,
            RunPhase::Prepare => RunPhase::RequestLoop,
            RunPhase::RequestLoop => RunPhase::Failed,
            RunPhase::Failed => RunPhase::Failed,
        }
    }
}

/// Each phase stands at one place.
proof fn lemma_phase_index(libssh: bool, i: int)
    requires
        0 <= i < phases(libssh).len(),
    ensures
        phases(libssh).no_duplicates(),
        phases(libssh).index_of(phases(libssh)[i]) == i,
{
    let list = phases(libssh);
    assert(list.no_duplicates());
    let k = list.index_of(list[i]);
    assert(list.contains(list[i]));
    assert(0 <= k < list.len() && list[k] == list[i]);
}

/// Requests are only served by a session whose host was verified and whose user
/// was authenticated: no phase after either is reached except from it, or from
/// a phase that itself comes after it.
pub proof fn requests_are_served_only_after_authentication(
    libssh: bool,
    phase: RunPhase,
    succeeded: bool,
)
    requires
        phases(libssh).contains(phase),
        !(phase is RequestLoop),
    ensures
        ({
            let list = phases(libssh);
            let next = phase_after(libssh, phase, succeeded);
            &&& next is Failed || list.contains(next)
            &&& list.contains(next) ==> list.index_of(next) > list.index_of(phase)
            &&& (list.contains(next) && list.index_of(next) > list.index_of(
                RunPhase::Authenticate,
            )) ==> (phase is Authenticate && succeeded) || list.index_of(phase) > list.index_of(
                RunPhase::Authenticate,
            )
            &&& (list.contains(next) && list.index_of(next) > list.index_of(RunPhase::VerifyHost))
                ==> (phase is VerifyHost && succeeded) || list.index_of(phase) > list.index_of(
                RunPhase::VerifyHost,
            )
        }),
{
    let list = phases(libssh);
    let next = phase_after(libssh, phase, succeeded);
    let i = list.index_of(phase);
    lemma_phase_index(libssh, i);
    assert(list[i] == phase);
    let a: int = if libssh {
        7
    } else {
        6
    };
    lemma_phase_index(libssh, a);
    lemma_phase_index(libssh, a - 1);
    assert(list[a] is Authenticate);
    assert(list[a - 1] is VerifyHost);
    if libssh {
        lemma_phase_index(libssh, 10);
        assert(list[10] is AnnounceAuthenticated);
        lemma_phase_index(libssh, 8);
        assert(list[8] is ReadIssue);
    }
    if succeeded {
        assert(!(phase is RequestLoop));
        assert(i + 1 < list.len());
        lemma_phase_index(libssh, i + 1);
        assert(next == list[i + 1]);
    } else if !(phase is ReadIssue) {
        assert(!list.contains(RunPhase::Failed));
    }
}

/// The bound on blocking calls is the last setting of every session, and the
/// user's configuration is read before it.
pub proof fn blocking_bound_is_set_last(
    config: Map<Seq<char>, Seq<char>>,
    hostname: Seq<char>,
    user: Seq<char>,
    port: u16,
    identities: Seq<Seq<char>>,
    known_hosts: Seq<Seq<char>>,
)
    ensures
        ({
            let s = libssh_settings(config, hostname, user, port, identities, known_hosts);
            &&& s.len() >= 5
            &&& s.last() == OptionView::Timeout(BLOCKING_CALL_LIMIT)
            &&& s.contains(OptionView::ParseConfig)
        }),
{
    let s = libssh_settings(config, hostname, user, port, identities, known_hosts);
    if option_is(config, "wezterm_ssh_verbose"@, "true"@) {
        assert(s[4] is ParseConfig);
    } else {
        assert(s[3] is ParseConfig);
    }
}

/// How many of the settings come from one option: one where it is set.
pub open spec fn set_count(config: Map<Seq<char>, Seq<char>>, name: Seq<char>) -> int {
    if config.dom().contains(name) {
        1
    } else {
        0
    }
}

/// The place that each of nine parts has in what they make up together.
proof fn lemma_places(
    a: Seq<OptionView>,
    b: Seq<OptionView>,
    c: Seq<OptionView>,
    d: Seq<OptionView>,
    e: Seq<OptionView>,
    f: Seq<OptionView>,
    g: Seq<OptionView>,
    h: Seq<OptionView>,
    i: Seq<OptionView>,
)
    ensures
        ({
            let s = a + b + c + d + e + f + g + h + i;
            let at_c = a.len() + b.len();
            let at_d = at_c + c.len();
            let at_e = at_d + d.len();
            let at_f = at_e + e.len();
            let at_g = at_f + f.len();
            let at_h = at_g + g.len();
            let at_i = at_h + h.len();
            &&& s.len() == at_i + i.len()
            &&& forall|k: int| 0 <= k < a.len() ==> #[trigger] s[k] == a[k]
            &&& forall|k: int| 0 <= k < b.len() ==> #[trigger] s[a.len() + k] == b[k]
            &&& forall|k: int| 0 <= k < c.len() ==> #[trigger] s[at_c + k] == c[k]
            &&& forall|k: int| 0 <= k < d.len() ==> #[trigger] s[at_d + k] == d[k]
            &&& forall|k: int| 0 <= k < e.len() ==> #[trigger] s[at_e + k] == e[k]
            &&& forall|k: int| 0 <= k < f.len() ==> #[trigger] s[at_f + k] == f[k]
            &&& forall|k: int| 0 <= k < g.len() ==> #[trigger] s[at_g + k] == g[k]
            &&& forall|k: int| 0 <= k < h.len() ==> #[trigger] s[at_h + k] == h[k]
            &&& forall|k: int| 0 <= k < i.len() ==> #[trigger] s[at_i + k] == i[k]
        }),
{
}

/// The settings of a session are those of its target, with the user's ssh
/// configuration right after them, and then what the options say: the agent,
/// every identity file in its order, the first of the known hosts files, the
/// accepted key types, the address to connect from and the host key types, each
/// with the value of its own option and only where that is set.
pub proof fn settings_are_what_the_options_say(
    config: Map<Seq<char>, Seq<char>>,
    hostname: Seq<char>,
    user: Seq<char>,
    port: u16,
    identities: Seq<Seq<char>>,
    known_hosts: Seq<Seq<char>>,
)
    ensures
        ({
            let s = libssh_settings(config, hostname, user, port, identities, known_hosts);
            let t: int = if option_is(config, "wezterm_ssh_verbose"@, "true"@) {
                1
            } else {
                0
            };
            let agent = t + 4;
            let keys = agent + set_count(config, "identityagent"@);
            let hosts = keys + identities.len();
            let types = hosts + if known_hosts.len() > 0 {
                1int
            } else {
                0int
            };
            let bind = types + set_count(config, "pubkeyacceptedtypes"@);
            let host_keys = bind + set_count(config, "bindaddress"@);
            let bound = host_keys + set_count(config, "hostkeyalgorithms"@);
            &&& s.len() == bound + 1
            &&& t == 1 ==> s[0] is LogPackets
            &&& s[t] == OptionView::Hostname(hostname)
            &&& s[t + 1] == OptionView::User(user)
            &&& s[t + 2] == OptionView::Port(port)
            &&& s[t + 3] is ParseConfig
            &&& config.dom().contains("identityagent"@) ==> s[agent] == OptionView::IdentityAgent(
                config["identityagent"@],
            )
            &&& forall|k: int|
                0 <= k < identities.len() ==> (#[trigger] s[keys + k]) == OptionView::AddIdentity(
                    identities[k],
                )
            &&& known_hosts.len() > 0 ==> s[hosts] == OptionView::KnownHosts(known_hosts[0])
            &&& config.dom().contains("pubkeyacceptedtypes"@) ==> s[types]
                == OptionView::PublicKeyAcceptedTypes(config["pubkeyacceptedtypes"@])
            &&& config.dom().contains("bindaddress"@) ==> s[bind] == OptionView::BindAddress(
                config["bindaddress"@],
            )
            &&& config.dom().contains("hostkeyalgorithms"@) ==> s[host_keys]
                == OptionView::HostKeys(config["hostkeyalgorithms"@])
            &&& s[bound] == OptionView::Timeout(60)
        }),
{
    let s = libssh_settings(config, hostname, user, port, identities, known_hosts);
    let log = if option_is(config, "wezterm_ssh_verbose"@, "true"@) {
        seq![OptionView::LogPackets]
    } else {
        Seq::empty()
    };
    let target = seq![
        OptionView::Hostname(hostname),
        OptionView::User(user),
        OptionView::Port(port),
        OptionView::ParseConfig,
    ];
    let agent = if_set(config, "identityagent"@, |s: Seq<char>| OptionView::IdentityAgent(s));
    let keys = identities.map_values(|f: Seq<char>| OptionView::AddIdentity(f));
    let hosts = if known_hosts.len() > 0 {
        seq![OptionView::KnownHosts(known_hosts[0])]
    } else {
        Seq::empty()
    };
    let types = if_set(
        config,
        "pubkeyacceptedtypes"@,
        |s: Seq<char>| OptionView::PublicKeyAcceptedTypes(s),
    );
    let bind = if_set(config, "bindaddress"@, |s: Seq<char>| OptionView::BindAddress(s));
    let host_keys = if_set(config, "hostkeyalgorithms"@, |s: Seq<char>| OptionView::HostKeys(s));
    let bound = seq![OptionView::Timeout(BLOCKING_CALL_LIMIT)];
    lemma_places(log, target, agent, keys, hosts, types, bind, host_keys, bound);
    assert(s == log + target + agent + keys + hosts + types + bind + host_keys + bound);
    let t = log.len() as int;
    let at_agent = t + 4;
    let at_keys = at_agent + agent.len();
    let at_hosts = at_keys + keys.len();
    let at_types = at_hosts + hosts.len();
    let at_bind = at_types + types.len();
    let at_host_keys = at_bind + bind.len();
    let at_bound = at_host_keys + host_keys.len();
    assert(s[t + 0] == target[0]);
    assert(s[t + 1] == target[1]);
    assert(s[t + 2] == target[2]);
    assert(s[t + 3] == target[3]);
    assert(agent.len() > 0 ==> s[at_agent + 0] == agent[0]);
    assert(hosts.len() > 0 ==> s[at_hosts + 0] == hosts[0]);
    assert(types.len() > 0 ==> s[at_types + 0] == types[0]);
    assert(bind.len() > 0 ==> s[at_bind + 0] == bind[0]);
    assert(host_keys.len() > 0 ==> s[at_host_keys + 0] == host_keys[0]);
    assert(s[at_bound + 0] == bound[0]);
}

/// A session comes up in its order. With libssh it is made and has its settings
/// before the host is connected to; with libssh2 the host is connected to first.
/// From there on both shake hands, show the server's banner, verify the host,
/// authenticate the user, say so, and only then serve requests.
pub proof fn a_session_comes_up_in_order(libssh: bool)
    ensures
        phases(libssh)[0] is Announce,
        phase_after(true, RunPhase::Announce, true) is CreateSession,
        phase_after(true, RunPhase::CreateSession, true) is ApplyOptions,
        phase_after(true, RunPhase::ApplyOptions, true) is ConnectHost,
        phase_after(true, RunPhase::ConnectHost, true) is Handshake,
        phase_after(false, RunPhase::Announce, true) is ConnectHost,
        phase_after(false, RunPhase::ConnectHost, true) is CreateSession,
        phase_after(false, RunPhase::CreateSession, true) is Handshake,
        phase_after(libssh, RunPhase::Handshake, true) is ServerBanner,
        phase_after(libssh, RunPhase::ServerBanner, true) is VerifyHost,
        phase_after(libssh, RunPhase::VerifyHost, true) is Authenticate,
        phase_after(true, RunPhase::Authenticate, true) is ReadIssue,
        phase_after(true, RunPhase::ReadIssue, true) is AnnounceIssue,
        phase_after(true, RunPhase::AnnounceIssue, true) is AnnounceAuthenticated,
        phase_after(false, RunPhase::Authenticate, true) is AnnounceAuthenticated,
        phase_after(libssh, RunPhase::AnnounceAuthenticated, true) is Prepare,
        phase_after(libssh, RunPhase::Prepare, true) is RequestLoop,
{
    assert forall|i: int| 0 <= i < phases(libssh).len() implies phases(libssh).index_of(
        #[trigger] phases(libssh)[i],
    ) == i by {
        lemma_phase_index(libssh, i);
    }
    let a = phases(true);
    let b = phases(false);
    lemma_phase_index(true, 0);
    lemma_phase_index(true, 1);
    lemma_phase_index(true, 2);
    lemma_phase_index(true, 3);
    lemma_phase_index(true, 7);
    lemma_phase_index(true, 8);
    lemma_phase_index(true, 9);
    lemma_phase_index(false, 0);
    lemma_phase_index(false, 1);
    lemma_phase_index(false, 2);
    lemma_phase_index(false, 6);
    assert(a[0] is Announce && a[1] is CreateSession && a[2] is ApplyOptions);
    assert(a[3] is ConnectHost && a[7] is Authenticate && a[8] is ReadIssue);
    assert(a[9] is AnnounceIssue);
    assert(b[0] is Announce && b[1] is ConnectHost && b[2] is CreateSession);
    assert(b[6] is Authenticate);
    let d: int = if libssh {
        4
    } else {
        3
    };
    let list = phases(libssh);
    lemma_phase_index(libssh, d);
    lemma_phase_index(libssh, d + 1);
    lemma_phase_index(libssh, d + 2);
    assert(list[d] is Handshake && list[d + 1] is ServerBanner && list[d + 2] is VerifyHost);
    let e: int = if libssh {
        10
    } else {
        7
    };
    lemma_phase_index(libssh, e);
    lemma_phase_index(libssh, e + 1);
    assert(list[e] is AnnounceAuthenticated && list[e + 1] is Prepare);
}

/// Whatever fails on the way ends the session, but for the issue banner: where
/// there is none to read, the user is told of the authentication right away.
pub proof fn only_the_issue_banner_may_be_missing(libssh: bool, phase: RunPhase)
    ensures
        phase_after(libssh, phase, false) is Failed <==> !(phase is ReadIssue),
        phase_after(libssh, RunPhase::ReadIssue, false) is AnnounceAuthenticated,
{
}

/// A command that reaches the host is run by the shell as it stands: on Windows
/// by the command interpreter of the environment or else by `cmd`, elsewhere by
/// `sh`, whose place it takes. The command `none` is no command.
pub proof fn proxies_are_run_by_the_shell(
    config: Map<Seq<char>, Seq<char>>,
    comspec: String,
    command: Seq<char>,
)
    ensures
        proxy_program(true, Some(comspec)) == comspec@,
        proxy_program(true, None) == "cmd"@,
        proxy_program(false, Some(comspec)) == "sh"@,
        proxy_program(false, None) == "sh"@,
        proxy_args(true, command) == seq!["/c"@, command],
        proxy_args(false, command) == seq!["-c"@, "exec "@ + command],
        !config.dom().contains("proxycommand"@) ==> proxy_command(config) is None,
        config.dom().contains("proxycommand"@) ==> (proxy_command(config) is None
            <==> config["proxycommand"@] == "none"@),
        proxy_command(config) is Some ==> proxy_command(config)->0 == config["proxycommand"@],
{
}

/// The limit is counted in milliseconds on Linux and in seconds on Apple systems,
/// and set nowhere else; a longer limit is never set to less, and one that cannot
/// be counted is set to the most that can.
pub proof fn unacknowledged_limits_keep_their_order(platform: Platform, a: u64, b: u64)
    requires
        a <= b,
    ensures
        unacked_setting(platform, a) is None <==> platform is Other,
        platform is Linux && a * 1000 <= u32::MAX ==> unacked_setting(platform, a)->0 == a * 1000,
        platform is Apple && a <= u32::MAX ==> unacked_setting(platform, a)->0 == a,
        !(platform is Other) ==> unacked_setting(platform, a)->0 <= unacked_setting(
            platform,
            b,
        )->0,
        !(platform is Other) && a > u32::MAX ==> unacked_setting(platform, a)->0 == u32::MAX,
        TRANSPORT_UNACKED_LIMIT == 20,
{
}

/// What is said of a phase that failed names what was being done: with libssh the
/// host that was connected to, with libssh2 the handshake, and what the user
/// could not be told.
pub proof fn failed_phases_say_what_was_done(host: Seq<char>, port: u16, libssh: bool, phase: RunPhase)
    ensures
        ({
            let address = host + ":"@ + decimal(port as nat);
            let told = Some("notifying user of banner"@);
            &&& RunPhase::Announce.text(libssh, host, port) == told
            &&& RunPhase::ServerBanner.text(libssh, host, port) == told
            &&& RunPhase::AnnounceIssue.text(libssh, host, port) == told
            &&& RunPhase::Handshake.text(true, host, port) == Some("Connecting to "@ + address)
            &&& RunPhase::Handshake.text(false, host, port) == Some("ssh handshake with "@ + address)
            &&& RunPhase::VerifyHost.text(false, host, port) == Some("host verification"@)
            &&& RunPhase::Authenticate.text(false, host, port) == Some("authentication"@)
            &&& RunPhase::AnnounceAuthenticated.text(libssh, host, port) == Some(
                "notifying user that session is authenticated"@,
            )
            &&& libssh && (phase is VerifyHost || phase is Authenticate) ==> phase.text(
                libssh,
                host,
                port,
            ) is None
            &&& phase is CreateSession || phase is ApplyOptions || phase is ConnectHost
                || phase is ReadIssue || phase is Prepare ==> phase.text(libssh, host, port) is None
        }),
{
}

} // verus!
