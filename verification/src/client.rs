//! The client of a multiplexer server: what kind of domain it serves, whether
//! the two sides understand each other, and which pane and socket are meant.

use crate::reconnect::{Link, LinkAction, LinkState};
use crate::text::{
    decimal, decimal_text, is_number_error, join2, number_errors_exclude_each_other, read_unsigned,
    unsigned_value, NumberError,
};
use crate::unilateral::{DomainId, PaneId};
use vstd::prelude::*;

verus! {

/// The kind of a domain.
#[derive(Debug, Clone, Copy, PartialEq, Eq, Structural)]
pub enum DomainKind {
    Unix,
    Tls,
    Ssh,
}

impl DomainKind {
    /// A lost connection is taken up again for TLS domains only: a local server
    /// is only lost when it dies, and an SSH domain would ask the user to
    /// authenticate again.
    pub fn reconnectable(self) -> (r: bool)
        ensures
            r == (self is Tls),
    {
        matches!(self, DomainKind::Tls)
    }

    /// Whether the server is on this machine.
    pub fn is_local(self) -> (r: bool)
        ensures
            r == (self is Unix),
    {
        matches!(self, DomainKind::Unix)
    }
}

/// A client of a multiplexer server.
#[derive(Debug, Clone, Copy, PartialEq, Eq, Structural)]
pub struct Client {
    pub kind: DomainKind,
    pub local_domain_id: Option<DomainId>,
    pub is_reconnectable: bool,
    pub is_local: bool,
    pub link: Link,
}

impl Client {
    /// A client on a connection that was just made.
    pub fn new(local_domain_id: Option<DomainId>, kind: DomainKind) -> (r: (Client, LinkAction))
        ensures
            r.0.kind == kind,
            r.0.local_domain_id == local_domain_id,
            r.0.is_reconnectable == (kind is Tls),
            r.0.is_local == (kind is Unix),
            r.0.link@ == LinkState::connected(kind is Tls, local_domain_id is Some),
            r.1 is Read,
    {
        let is_reconnectable = kind.reconnectable();
        let (link, action) = Link::new(is_reconnectable, local_domain_id.is_some());
        (
            Client { kind, local_domain_id, is_reconnectable, is_local: kind.is_local(), link },
            action,
        )
    }

    /// Whether the transport is carrying traffic.
    pub fn is_connection_live(&self) -> (r: bool)
        ensures
            r == self.link@.connection_live,
    {
        self.link.is_connection_live()
    }

    pub fn local_domain_id(&self) -> (r: Option<DomainId>)
        ensures
            r == self.local_domain_id,
    {
        self.local_domain_id
    }
}

/// The server speaks another version of the protocol.
#[derive(Debug, PartialEq, Eq)]
pub struct IncompatibleVersionError {
    pub version: String,
    pub codec_vers: usize,
}

impl IncompatibleVersionError {
    pub open spec fn text(self, our_version: Seq<char>, our_codec: usize) -> Seq<char> {
        "Please install the same version of wezterm on both the client and server!\nThe server version is "@
            + self.version@ + " (codec version "@ + decimal(self.codec_vers as nat)
            + "),\nwhich is not compatible with our version \n"@ + our_version
            + " (codec version "@ + decimal(our_codec as nat) + ")."@
    }

    pub fn message(&self, our_version: &str, our_codec: usize) -> (s: String)
        ensures
            s@ == self.text(our_version@, our_codec),
    {
        let mut s =
            "Please install the same version of wezterm on both the client and server!\nThe server version is ".to_owned();
        s.append(self.version.as_str());
        s.append(" (codec version ");
        s.append(decimal_text(self.codec_vers as u64).as_str());
        s.append("),\nwhich is not compatible with our version \n");
        s.append(our_version);
        s.append(" (codec version ");
        s.append(decimal_text(our_codec as u64).as_str());
        s.append(").");
        s
    }
}

/// What came of asking the server for its version.
#[derive(Debug)]
pub enum VersionReply {
    Info { version: String, codec_vers: usize },
    /// Nothing came within [`VERSION_TIMEOUT`].
    Timeout,
    /// What came cannot be an answer.
    CorruptResponse,
    /// The question could not be sent.
    ChannelSendError,
    /// Any other error, as it is shown.
    Failed(String),
}

/// How long the server has to tell its version, in seconds.
pub const VERSION_TIMEOUT: u64 = 60;

/// What follows from it.
#[derive(Debug)]
pub enum VersionVerdict {
    /// Go on, and tell the server who we are.
    SetClientId { version: String },
    Incompatible(IncompatibleVersionError),
    /// Show the message, and fail with it.
    Fail(String),
}

/// What is said where the server's version could not be learnt.
pub open spec fn version_failure(reply: VersionReply) -> Seq<char> {
    match reply {
        VersionReply::Timeout =>
            "Timed out while parsing the response from the server. This may be due to network connectivity issues"@,
        VersionReply::CorruptResponse =>
            "Received an implausible and likely corrupt response from the server. This can happen if the remote host outputs to stdout prior to running commands. Check your shell startup!"@,
        VersionReply::ChannelSendError =>
            "Internal channel was closed prior to sending request. This may indicate that the remote host output invalid data to stdout prior to running the requested command. Check your shell startup!"@,
        VersionReply::Failed(e) =>
            "Please install the same version of wezterm on both the client and server! The server reported error '"@
            + e@
            + "' while being asked for its version.  This likely means that the server is older than the client, but it could also happen if the remote host outputs to stdout prior to running commands. Check your shell startup!"@,
        VersionReply::Info { .. } => Seq::empty(),
    }
}

/// Whether the two sides understand each other: they do exactly where they
/// speak the same version of the protocol.
pub fn verify_version_compat(reply: VersionReply, our_codec: usize) -> (v: VersionVerdict)
    ensures
        match reply {
            VersionReply::Info { version, codec_vers } => if codec_vers == our_codec {
                v == (VersionVerdict::SetClientId { version })
            } else {
                v == VersionVerdict::Incompatible(IncompatibleVersionError { version, codec_vers })
            },
            _ => v matches VersionVerdict::Fail(m) && m@ == version_failure(reply),
        },
{
    match reply {
        VersionReply::Info { version, codec_vers } => if codec_vers == our_codec {
            VersionVerdict::SetClientId { version }
        } else {
            VersionVerdict::Incompatible(IncompatibleVersionError { version, codec_vers })
        },
        VersionReply::Timeout => VersionVerdict::Fail(
            "Timed out while parsing the response from the server. This may be due to network connectivity issues".to_owned(),
        ),
        VersionReply::CorruptResponse => VersionVerdict::Fail(
            "Received an implausible and likely corrupt response from the server. This can happen if the remote host outputs to stdout prior to running commands. Check your shell startup!".to_owned(),
        ),
        VersionReply::ChannelSendError => VersionVerdict::Fail(
            "Internal channel was closed prior to sending request. This may indicate that the remote host output invalid data to stdout prior to running the requested command. Check your shell startup!".to_owned(),
        ),
        VersionReply::Failed(e) => {
            let mut m =
                "Please install the same version of wezterm on both the client and server! The server reported error '".to_owned();
            m.append(e.as_str());
            m.append(
                "' while being asked for its version.  This likely means that the server is older than the client, but it could also happen if the remote host outputs to stdout prior to running commands. Check your shell startup!",
            );
            VersionVerdict::Fail(m)
        },
    }
}

/// What a request to the server came to.
#[derive(Debug)]
pub enum PduReply<T> {
    /// The request could not be handed to the reader loop.
    NotSent,
    /// The reader loop went away without answering.
    NoReply,
    /// What the reader loop answered instead of a message.
    Failed(String),
    /// A message of the kind that was asked for.
    Expected(T),
    /// A message of another kind.
    Unexpected,
}

/// Why a request failed.
#[derive(Debug)]
pub enum PduError {
    ChannelSendError,
    NoReply,
    Failed(String),
    UnexpectedResponse,
}

impl PduError {
    pub open spec fn text(&self, shown: Seq<char>) -> Seq<char> {
        match *self {
            PduError::ChannelSendError => "send_pdu send"@,
            PduError::NoReply => "send_pdu recv"@,
            PduError::Failed(e) => e@,
            PduError::UnexpectedResponse => "unexpected response "@ + shown,
        }
    }

    /// What is said of it; `shown` is the answer as it is shown. A request that
    /// did not get through is reported by what was being done with it, and an
    /// error that came back as it is.
    pub fn message(&self, shown: &str) -> (s: String)
        ensures
            s@ == self.text(shown@),
    {
        match self {
            PduError::ChannelSendError => "send_pdu send".to_owned(),
            PduError::NoReply => "send_pdu recv".to_owned(),
            PduError::Failed(e) => e.clone(),
            PduError::UnexpectedResponse => join2("unexpected response ", shown),
        }
    }
}

/// How a request comes out.
pub fn settle_pdu<T>(reply: PduReply<T>) -> (r: Result<T, PduError>)
    ensures
        match reply {
            PduReply::Expected(v) => r == Ok::<T, PduError>(v),
            PduReply::NotSent => r == Err::<T, PduError>(PduError::ChannelSendError),
            PduReply::NoReply => r == Err::<T, PduError>(PduError::NoReply),
            PduReply::Failed(e) => r == Err::<T, PduError>(PduError::Failed(e)),
            PduReply::Unexpected => r == Err::<T, PduError>(PduError::UnexpectedResponse),
        },
{
    match reply {
        PduReply::Expected(v) => Ok(v),
        PduReply::NotSent => Err(PduError::ChannelSendError),
        PduReply::NoReply => Err(PduError::NoReply),
        PduReply::Failed(e) => Err(PduError::Failed(e)),
        PduReply::Unexpected => Err(PduError::UnexpectedResponse),
    }
}

/// A client of the server, as far as it says which pane is looked at.
#[derive(Debug, Clone, Copy, PartialEq, Eq, Structural)]
pub struct FocusedClient {
    pub focused_pane_id: Option<PaneId>,
    /// When it was last used, in nanoseconds.
    pub last_input: i128,
}

/// The client at `i` was used last of those that look at a pane, and is the
/// first of those that were used as late.
pub open spec fn is_last_used(clients: Seq<FocusedClient>, i: int) -> bool {
    &&& 0 <= i < clients.len()
    &&& clients[i].focused_pane_id is Some
    &&& forall|j: int|
        0 <= j < clients.len() && (#[trigger] clients[j]).focused_pane_id is Some
            ==> clients[j].last_input <= clients[i].last_input && (j < i ==> clients[j].last_input
            < clients[i].last_input)
}

/// The client that was used last.
pub fn last_used(clients: &Vec<FocusedClient>) -> (r: Option<usize>)
    ensures
        match r {
            Some(i) => is_last_used(clients@, i as int),
            None => forall|j: int|
                0 <= j < clients@.len() ==> (#[trigger] clients@[j]).focused_pane_id is None,
        },
{
    let mut best: Option<usize> = None;
    let mut i: usize = 0;
    while i < clients.len()
        invariant
            i <= clients@.len(),
            match best {
                Some(b) => b < i && is_last_used(clients@.take(i as int), b as int),
                None => forall|j: int|
                    0 <= j < i ==> (#[trigger] clients@[j]).focused_pane_id is None,
            },
        decreases clients@.len() - i,
    {
        let ghost seen = clients@.take(i as int);
        let ghost more = clients@.take(i + 1);
        assert(more == seen.push(clients@[i as int]));
        if clients[i].focused_pane_id.is_some() {
            let later = match best {
                Some(b) => clients[i].last_input > clients[b].last_input,
                None => true,
            };
            if later {
                assert forall|j: int|
                    0 <= j < more.len() && (#[trigger] more[j]).focused_pane_id is Some implies
                    more[j].last_input <= more[i as int].last_input && (j < i
                    ==> more[j].last_input < more[i as int].last_input) by {
                    if j < i {
                        assert(more[j] == seen[j]);
                        assert(more[j] == clients@[j]);
                    }
                }
                best = Some(i);
            }
        }
        proof {
            if let Some(b) = best {
                assert(is_last_used(more, b as int)) by {
                    if b < i {
                        assert(more[b as int] == seen[b as int]);
                        assert forall|j: int|
                            0 <= j < more.len() && (#[trigger] more[j]).focused_pane_id
                                is Some implies more[j].last_input <= more[b as int].last_input
                            && (j < b ==> more[j].last_input < more[b as int].last_input) by {
                            if j < i {
                                assert(more[j] == seen[j]);
                            }
                        }
                    }
                }
            }
        }
        i = i + 1;
    }
    assert(clients@.take(i as int) == clients@);
    best
}

/// Why no pane was found.
#[derive(Debug, Clone, Copy, PartialEq, Eq, Structural)]
pub enum PaneError {
    /// The environment names a pane that is not a number.
    BadNumber(NumberError),
    NothingFocused,
}

impl PaneError {
    pub open spec fn text(self) -> Seq<char> {
        match self {
            PaneError::BadNumber(e) => e.text(),
            PaneError::NothingFocused =>
                "--pane-id was not specified and $WEZTERM_PANE\n                         is not set in the environment, and I couldn't\n                         determine which pane was currently focused"@,
        }
    }

    /// What is said of it.
    pub fn message(self) -> (s: String)
        ensures
            s@ == self.text(),
    {
        match self {
            PaneError::BadNumber(e) => e.message(),
            PaneError::NothingFocused =>
                "--pane-id was not specified and $WEZTERM_PANE\n                         is not set in the environment, and I couldn't\n                         determine which pane was currently focused".to_owned(),
        }
    }
}

/// Which pane is meant: the one that was given, else the one in the
/// environment, else the one looked at by the client that was used last. The
/// clients are only asked for where neither of the first two is there.
pub fn resolve_pane_id(
    pane_id: Option<PaneId>,
    environment: &Option<String>,
    clients: &Vec<FocusedClient>,
) -> (r: Result<PaneId, PaneError>)
    ensures
        match (pane_id, *environment) {
            (Some(p), _) => r == Ok::<PaneId, PaneError>(p),
            (None, Some(text)) => match unsigned_value(text@, usize::MAX as nat) {
                Some(v) => r matches Ok(p) && p == v,
                None => r matches Err(PaneError::BadNumber(e)) && is_number_error(
                    text@,
                    usize::MAX as nat,
                    e,
                ),
            },
            (None, None) => match r {
                Ok(p) => exists|i: int| #[trigger]
                    is_last_used(clients@, i) && clients@[i].focused_pane_id == Some(p),
                Err(e) => e is NothingFocused && forall|j: int|
                    0 <= j < clients@.len() ==> (#[trigger] clients@[j]).focused_pane_id is None,
            },
        },
{
    if let Some(p) = pane_id {
        return Ok(p);
    }
    if let Some(text) = environment {
        return match read_unsigned(text.as_str(), usize::MAX as u64) {
            Ok(v) => Ok(v as usize),
            Err(e) => {
                proof {
                    number_errors_exclude_each_other(text@, usize::MAX as nat, e, e);
                }
                Err(PaneError::BadNumber(e))
            },
        };
    }
    if let Some(i) = last_used(clients) {
        if let Some(p) = clients[i].focused_pane_id {
            return Ok(p);
        }
    }
    Err(PaneError::NothingFocused)
}

/// Which client was used last is settled by the clients alone: there is at most
/// one such client.
pub proof fn last_used_is_unique(clients: Seq<FocusedClient>, i: int, j: int)
    requires
        is_last_used(clients, i),
        is_last_used(clients, j),
    ensures
        i == j,
{
    assert(clients[i].focused_pane_id is Some);
    assert(clients[j].focused_pane_id is Some);
}

/// Which unix domain is meant.
#[derive(Debug)]
pub enum UnixChoice {
    /// The socket with this path. A server is started where nothing listens,
    /// unless `no_serve_automatically`.
    Socket { path: String, no_serve_automatically: bool },
    /// The first one that is configured.
    FirstConfigured,
}

/// What is said where no unix domain is known.
pub open spec fn no_unix_domain() -> Seq<char> {
    "no default unix domain is configured and WEZTERM_UNIX_SOCKET is not set in the environment"@
}

/// Which unix domain is meant: the one in the environment, else that of a
/// running window unless a server is preferred, else the first one that is
/// configured.
pub fn compute_unix_domain(
    environment: Option<String>,
    prefer_mux: bool,
    gui: Option<String>,
    configured: usize,
) -> (r: Result<UnixChoice, String>)
    ensures
        match environment {
            Some(path) if path@.len() > 0 => r == Ok::<UnixChoice, String>(
                UnixChoice::Socket { path, no_serve_automatically: false },
            ),
            _ => match gui {
                Some(path) if !prefer_mux => r == Ok::<UnixChoice, String>(
                    UnixChoice::Socket { path, no_serve_automatically: true },
                ),
                _ => if configured > 0 {
                    r == Ok::<UnixChoice, String>(UnixChoice::FirstConfigured)
                } else {
                    r matches Err(m) && m@ == no_unix_domain()
                },
            },
        },
{
    if let Some(path) = environment {
        if path.as_str().unicode_len() > 0 {
            return Ok(UnixChoice::Socket { path, no_serve_automatically: false });
        }
    }
    if !prefer_mux {
        if let Some(path) = gui {
            return Ok(UnixChoice::Socket { path, no_serve_automatically: true });
        }
    }
    if configured > 0 {
        Ok(UnixChoice::FirstConfigured)
    } else {
        Err(
            "no default unix domain is configured and WEZTERM_UNIX_SOCKET is not set in the environment".to_owned(),
        )
    }
}

/// What a window is called while a client reconnects.
pub const RECONNECTING_TITLE: &'static str = "wezterm: Reconnecting...";

/// What is shown while a client waits to reconnect.
pub fn disconnected_text(error: &str) -> (s: String)
    ensures
        s@ == "client disconnected "@ + error@ + "; will reconnect"@,
{
    let mut s = "client disconnected ".to_owned();
    s.append(error);
    s.append("; will reconnect");
    s
}

/// What is shown where reconnecting failed, and the next attempt comes after
/// the wait.
pub fn reconnect_failed_text(error: &str, wait: &str) -> (s: String)
    ensures
        s@ == "problem reconnecting: "@ + error@ + "; will reconnect in "@ + wait@ + "\n"@,
{
    let mut s = "problem reconnecting: ".to_owned();
    s.append(error);
    s.append("; will reconnect in ");
    s.append(wait);
    s.append("\n");
    s
}

/// One more client that looks at a pane becomes the one that was used last
/// exactly where it was used later than the one before: of two that were used at
/// the same time the first stays. A client that looks at no pane changes nothing.
pub proof fn a_later_use_takes_over(clients: Seq<FocusedClient>, i: int, c: FocusedClient)
    requires
        is_last_used(clients, i),
    ensures
        c.focused_pane_id is Some && c.last_input > clients[i].last_input <==> is_last_used(
            clients.push(c),
            clients.len() as int,
        ),
        c.focused_pane_id is None || c.last_input <= clients[i].last_input <==> is_last_used(
            clients.push(c),
            i,
        ),
{
    let all = clients.push(c);
    let n = clients.len() as int;
    assert(all[n] == c);
    assert(all[i] == clients[i]);
    if c.focused_pane_id is Some && c.last_input > clients[i].last_input {
        assert forall|j: int| 0 <= j < all.len() && (#[trigger] all[j]).focused_pane_id
            is Some implies all[j].last_input <= all[n].last_input && (j < n
            ==> all[j].last_input < all[n].last_input) by {
            if j < n {
                assert(all[j] == clients[j]);
            }
        }
    }
    if c.focused_pane_id is None || c.last_input <= clients[i].last_input {
        assert forall|j: int| 0 <= j < all.len() && (#[trigger] all[j]).focused_pane_id
            is Some implies all[j].last_input <= all[i].last_input && (j < i ==> all[j].last_input
            < all[i].last_input) by {
            if j < n {
                assert(all[j] == clients[j]);
            }
        }
    }
}

/// A single client that looks at a pane is the one that was used last.
pub proof fn the_only_client_was_used_last(c: FocusedClient)
    ensures
        is_last_used(seq![c], 0) <==> c.focused_pane_id is Some,
{
}

} // verus!
