//! Connecting over TLS: reusing credentials or fetching new ones over ssh, the
//! files that a connection is set up from, and how fetched files are written.

use crate::connect::{connecting_context, running_message};
use crate::path::{join, joined};
use crate::text::{
    decimal, decimal_is_read_back, decimal_text, join2, join3, text_of_option, texts,
};
use crate::tls::TlsDomainClient;
use vstd::prelude::*;

verus! {

/// Why an attempt to connect failed, as far as what follows depends on it.
#[derive(Debug, Clone, Copy, PartialEq, Eq, Structural)]
pub enum ConnectError {
    /// The server is not up.
    Refused,
    /// A credential file is not there.
    NotFound,
    /// Any other trouble with reaching the host.
    OtherIo,
    /// Not a matter of input or output at all.
    NotIo,
}

impl ConnectError {
    /// Whether fetching new credentials can help: not where the host could not
    /// be reached or talked to.
    pub open spec fn bootstrap_can_help(self) -> bool {
        !(self is OtherIo)
    }
}

/// What connecting over TLS has to do next.
#[derive(Debug, Clone, Copy, PartialEq, Eq, Structural)]
pub enum TlsAction {
    /// Try with the credentials there are.
    TryConnect,
    /// Tell the user that they were of no use.
    ReportReuseFailed,
    /// Open the one-shot ssh session.
    OpenSsh,
    /// Run the command that hands out credentials.
    RunCommand,
    /// Wait for it to end well.
    WaitCommand,
    /// Read what it wrote.
    ReadCredentials,
    /// Write the authority's certificate.
    WriteCa,
    /// Write the client's certificate and key.
    WriteCert,
    /// Use the connection.
    Use,
    /// Report the error of the last action.
    Fail,
}

/// A file of fetched credentials.
#[derive(Debug, Clone, Copy)]
pub struct CredsFile {
    /// What it is called within the directory of the domain.
    pub name: &'static str,
    /// Whether only the owner may read it.
    pub owner_only: bool,
}

impl TlsAction {
    /// The file that an action writes, if it writes one. The authority's
    /// certificate is for anybody to read; the client's file holds its private
    /// key and is for the owner only.
    pub fn writes(self) -> (r: Option<CredsFile>)
        ensures
            match r {
                Some(file) => {
                    &&& self is WriteCa || self is WriteCert
                    &&& self is WriteCa ==> file.name@ == "ca.pem"@ && !file.owner_only
                    &&& self is WriteCert ==> file.name@ == "cert.pem"@ && file.owner_only
                },
                None => !(self is WriteCa) && !(self is WriteCert),
            },
    {
        match self {
            TlsAction::WriteCa => Some(CredsFile { name: "ca.pem", owner_only: false }),
            TlsAction::WriteCert => Some(CredsFile { name: "cert.pem", owner_only: true }),
            _ => None,
        }
    }

    pub open spec fn shown_text(self, command: Seq<char>, error: Seq<char>) -> Option<Seq<char>> {
        match self {
            TlsAction::ReportReuseFailed => Some(
                "Failed to reuse creds: "@ + error + "\nWill retry bootstrap via SSH\n"@,
            ),
            TlsAction::RunCommand => Some("Running: "@ + command + "\n"@),
            _ => None,
        }
    }

    /// What the user is shown as an action begins, if anything; `error` is that
    /// of the attempt before.
    pub fn shown(self, command: &str, error: &str) -> (s: Option<String>)
        ensures
            text_of_option(s) == self.shown_text(command@, error@),
    {
        match self {
            TlsAction::ReportReuseFailed => Some(
                join3("Failed to reuse creds: ", error, "\nWill retry bootstrap via SSH\n"),
            ),
            TlsAction::RunCommand => Some(running_message(command)),
            _ => None,
        }
    }

    pub open spec fn failure_text(self, command: Seq<char>) -> Option<Seq<char>> {
        match self {
            TlsAction::RunCommand => Some("executing `"@ + command + "` on remote host"@),
            TlsAction::WaitCommand => Some(command + " failed"@),
            TlsAction::ReadCredentials => Some("reading tlscreds response"@),
            _ => None,
        }
    }

    /// What is said of an action that failed, where there is more than its own
    /// error: of a command that it ended badly, and of the others what was being
    /// done.
    pub fn failure(self, command: &str) -> (s: Option<String>)
        ensures
            text_of_option(s) == self.failure_text(command@),
    {
        match self {
            TlsAction::RunCommand => Some(join3("executing `", command, "` on remote host")),
            TlsAction::WaitCommand => Some(join2(command, " failed")),
            TlsAction::ReadCredentials => Some("reading tlscreds response".to_owned()),
            _ => None,
        }
    }
}

/// What is said of a reply that holds no credentials.
pub const UNEXPECTED_TLSCREDS: &'static str = "unexpected response to tlscreds";

/// What the user is shown once there is a connection.
pub const TLS_CONNECTED: &'static str = "TLS Connected!\n";

/// What came of the last action.
#[derive(Debug, Clone, Copy, PartialEq, Eq, Structural)]
pub enum TlsEvent {
    Succeeded,
    ConnectFailed(ConnectError),
    Failed,
}

#[derive(Debug, Clone, Copy, PartialEq, Eq, Structural)]
pub enum TlsStage {
    Reusing,
    Reporting,
    Ssh,
    Running,
    Waiting,
    Reading,
    WritingCa,
    WritingCert,
    Connecting,
    Finished,
}

impl TlsStage {
    /// The stages whose error the user has not seen.
    pub open spec fn is_unseen(self) -> bool {
        self is Running || self is Waiting || self is Reading || self is WritingCa
            || self is WritingCert || self is Connecting
    }

    /// Whether the user is shown the error that ends a stage: not that of the
    /// credentials there were, nor that of the ssh session, which has shown its
    /// own.
    pub fn shows_failure(self) -> (r: bool)
        ensures
            r == (self is Running || self is Waiting || self is Reading || self is WritingCa
                || self is WritingCert || self is Connecting),
            r == self.is_unseen(),
    {
        match self {
            TlsStage::Running => true,
            TlsStage::Waiting => true,
            TlsStage::Reading => true,
            TlsStage::WritingCa => true,
            TlsStage::WritingCert => true,
            TlsStage::Connecting => true,
            _ => false,
        }
    }
}

/// Connecting over TLS.
#[derive(Debug, Clone, Copy, PartialEq, Eq, Structural)]
pub struct TlsConnect {
    /// Whether there is a target to fetch credentials from.
    pub bootstrap: bool,
    /// Whether credentials were fetched earlier.
    pub has_creds: bool,
    pub stage: TlsStage,
}

impl TlsConnect {
    pub open spec fn at(self, stage: TlsStage) -> TlsConnect {
        TlsConnect { stage, ..self }
    }

    pub open spec fn fail(self) -> (TlsConnect, TlsAction) {
        (self.at(TlsStage::Finished), TlsAction::Fail)
    }

    /// Fetch credentials where there are none yet and somewhere to fetch them
    /// from; then connect.
    pub open spec fn proceed(self) -> (TlsConnect, TlsAction) {
        if self.bootstrap && !self.has_creds {
            (self.at(TlsStage::Ssh), TlsAction::OpenSsh)
        } else {
            (self.at(TlsStage::Connecting), TlsAction::TryConnect)
        }
    }

    /// What the success of a stage leads to.
    pub open spec fn onward(self) -> (TlsConnect, TlsAction) {
        match self.stage {
            TlsStage::Reusing => (self.at(TlsStage::Finished), TlsAction::Use),
            TlsStage::Reporting => self.proceed(),
            TlsStage::Ssh => (self.at(TlsStage::Running), TlsAction::RunCommand),
            TlsStage::Running => (self.at(TlsStage::Waiting), TlsAction::WaitCommand),
            TlsStage::Waiting => (self.at(TlsStage::Reading), TlsAction::ReadCredentials),
            TlsStage::Reading => (self.at(TlsStage::WritingCa), TlsAction::WriteCa),
            TlsStage::WritingCa => (self.at(TlsStage::WritingCert), TlsAction::WriteCert),
            TlsStage::WritingCert => (
                TlsConnect { has_creds: true, stage: TlsStage::Connecting, ..self },
                TlsAction::TryConnect,
            ),
            TlsStage::Connecting => (self.at(TlsStage::Finished), TlsAction::Use),
            TlsStage::Finished => (self, TlsAction::Fail),
        }
    }

    /// The next state and action.
    pub open spec fn next(self, event: TlsEvent) -> (TlsConnect, TlsAction) {
        match event {
            TlsEvent::Succeeded => self.onward(),
            TlsEvent::ConnectFailed(e) => if self.stage is Reusing && e.bootstrap_can_help() {
                (self.at(TlsStage::Reporting), TlsAction::ReportReuseFailed)
            } else {
                self.fail()
            },
            TlsEvent::Failed => self.fail(),
        }
    }

    pub open spec fn expects(self, event: TlsEvent) -> bool {
        match event {
            TlsEvent::Succeeded => !(self.stage is Finished),
            TlsEvent::ConnectFailed(_) => self.stage is Reusing || self.stage is Connecting,
            TlsEvent::Failed => !(self.stage is Reusing || self.stage is Reporting
                || self.stage is Connecting || self.stage is Finished),
        }
    }

    /// Begins to connect. With a target to bootstrap from, the credentials of
    /// an earlier bootstrap are tried first.
    pub fn start(bootstrap: bool, has_creds: bool) -> (r: (TlsConnect, TlsAction))
        ensures
            r.0 == (TlsConnect {
                bootstrap,
                has_creds,
                stage: if bootstrap {
                    TlsStage::Reusing
                } else {
                    TlsStage::Connecting
                },
            }),
            r.1 is TryConnect,
    {
        let stage = if bootstrap {
            TlsStage::Reusing
        } else {
            TlsStage::Connecting
        };
        (TlsConnect { bootstrap, has_creds, stage }, TlsAction::TryConnect)
    }

    fn go(&mut self, stage: TlsStage, action: TlsAction) -> (r: TlsAction)
        ensures
            (*final(self), r) == (old(self).at(stage), action),
    {
        self.stage = stage;
        action
    }

    /// Takes what came of the last action and names the next one.
    pub fn step(&mut self, event: TlsEvent) -> (action: TlsAction)
        requires
            old(self).expects(event),
        ensures
            (*final(self), action) == old(self).next(event),
    {
        match event {
            TlsEvent::Succeeded => match self.stage {
                TlsStage::Reusing => self.go(TlsStage::Finished, TlsAction::Use),
                TlsStage::Reporting => if self.bootstrap && !self.has_creds {
                    self.go(TlsStage::Ssh, TlsAction::OpenSsh)
                } else {
                    self.go(TlsStage::Connecting, TlsAction::TryConnect)
                },
                TlsStage::Ssh => self.go(TlsStage::Running, TlsAction::RunCommand),
                TlsStage::Running => self.go(TlsStage::Waiting, TlsAction::WaitCommand),
                TlsStage::Waiting => self.go(TlsStage::Reading, TlsAction::ReadCredentials),
                TlsStage::Reading => self.go(TlsStage::WritingCa, TlsAction::WriteCa),
                TlsStage::WritingCa => self.go(TlsStage::WritingCert, TlsAction::WriteCert),
                TlsStage::WritingCert => {
                    self.has_creds = true;
                    self.go(TlsStage::Connecting, TlsAction::TryConnect)
                },
                TlsStage::Connecting => self.go(TlsStage::Finished, TlsAction::Use),
                TlsStage::Finished => TlsAction::Fail,
            },
            TlsEvent::ConnectFailed(e) => if self.stage == TlsStage::Reusing && e
                != ConnectError::OtherIo {
                self.go(TlsStage::Reporting, TlsAction::ReportReuseFailed)
            } else {
                self.go(TlsStage::Finished, TlsAction::Fail)
            },
            TlsEvent::Failed => self.go(TlsStage::Finished, TlsAction::Fail),
        }
    }
}

/// A device that has never bootstrapped does: a missing credential file leads
/// on to the ssh session rather than ending the attempt, and so does a server
/// that is not up; a host that cannot be reached ends it.
pub proof fn missing_credentials_are_fetched(c: TlsConnect)
    requires
        c.stage is Reusing,
        c.bootstrap,
        !c.has_creds,
    ensures
        ({
            let after = c.next(TlsEvent::ConnectFailed(ConnectError::NotFound)).0;
            &&& after.next(TlsEvent::Succeeded).1 is OpenSsh
            &&& c.next(TlsEvent::ConnectFailed(ConnectError::Refused)) == c.next(
                TlsEvent::ConnectFailed(ConnectError::NotFound),
            )
            &&& c.next(TlsEvent::ConnectFailed(ConnectError::OtherIo)).1 is Fail
        }),
{
}

/// Credentials are fetched at most once for a connection: with them there, or
/// with nowhere to fetch them from, no ssh session is opened.
pub proof fn credentials_are_fetched_once(c: TlsConnect, event: TlsEvent)
    requires
        c.expects(event),
    ensures
        c.next(event).1 is OpenSsh ==> c.bootstrap && !c.has_creds && c.stage is Reporting,
        c.next(event).1 is Use ==> event is Succeeded && (c.stage is Reusing
            || c.stage is Connecting),
        c.has_creds ==> c.next(event).0.has_creds,
{
}

/// One step of setting a TLS connection up.
#[derive(Debug)]
pub enum SetupStep {
    /// Load the client's certificate from the file.
    Certificate(String),
    /// Load a chain: its first certificate takes the place of the one before,
    /// the others are sent along.
    Chain(String),
    PrivateKey(String),
    /// Trust what is at the path, a certificate or a directory of them.
    TrustRoot(String),
    /// Trust the authority's certificate from the file, if it is there.
    TrustCa(String),
    /// Whether the host name has to match.
    VerifyHostname(bool),
    /// Connect within so many nanoseconds.
    ConnectTcp(u128),
    /// Send what is written without delay.
    NoDelay,
    /// Let a write take so many nanoseconds at most.
    WriteTimeout(u128),
    /// Let a read take so many nanoseconds at most.
    ReadTimeout(u128),
    /// Shake hands with the server under this name.
    Handshake(String),
}

/// What a step says.
pub enum SetupView {
    Certificate(Seq<char>),
    Chain(Seq<char>),
    PrivateKey(Seq<char>),
    TrustRoot(Seq<char>),
    TrustCa(Seq<char>),
    VerifyHostname(bool),
    ConnectTcp(u128),
    NoDelay,
    WriteTimeout(u128),
    ReadTimeout(u128),
    Handshake(Seq<char>),
}

impl View for SetupStep {
    type V = SetupView;

    open spec fn view(&self) -> SetupView {
        match *self {
            SetupStep::Certificate(s) => SetupView::Certificate(s@),
            SetupStep::Chain(s) => SetupView::Chain(s@),
            SetupStep::PrivateKey(s) => SetupView::PrivateKey(s@),
            SetupStep::TrustRoot(s) => SetupView::TrustRoot(s@),
            SetupStep::TrustCa(s) => SetupView::TrustCa(s@),
            SetupStep::VerifyHostname(b) => SetupView::VerifyHostname(b),
            SetupStep::ConnectTcp(t) => SetupView::ConnectTcp(t),
            SetupStep::NoDelay => SetupView::NoDelay,
            SetupStep::WriteTimeout(t) => SetupView::WriteTimeout(t),
            SetupStep::ReadTimeout(t) => SetupView::ReadTimeout(t),
            SetupStep::Handshake(s) => SetupView::Handshake(s@),
        }
    }
}

impl SetupStep {
    pub open spec fn shown_text(&self, address: Seq<char>) -> Option<Seq<char>> {
        match *self {
            SetupStep::ConnectTcp(_) => Some("Connecting to "@ + address + " using TLS\n"@),
            _ => None,
        }
    }

    /// What the user is shown as a step begins, if anything.
    pub fn shown(&self, address: &str) -> (s: Option<String>)
        ensures
            text_of_option(s) == self.shown_text(address@),
    {
        match self {
            SetupStep::ConnectTcp(_) => Some(join3("Connecting to ", address, " using TLS\n")),
            _ => None,
        }
    }

    pub open spec fn failure_text(&self, address: Seq<char>, host: Seq<char>) -> Option<Seq<char>> {
        match *self {
            SetupStep::ConnectTcp(_) => Some("connecting to "@ + address),
            SetupStep::Handshake(_) => Some(
                "SslConnector for "@ + address + " with host name "@ + host,
            ),
            _ => None,
        }
    }

    /// What is said to have been done when a step failed on the network; `host`
    /// is the host of the address, whatever name the server has to have.
    pub fn failure(&self, address: &str, host: &str) -> (s: Option<String>)
        ensures
            text_of_option(s) == self.failure_text(address@, host@),
    {
        match self {
            SetupStep::ConnectTcp(_) => Some(connecting_context(address)),
            SetupStep::Handshake(_) => {
                let mut s = join3("SslConnector for ", address, " with host name ");
                s.append(host);
                Some(s)
            },
            _ => None,
        }
    }
}

pub open spec fn setup_views(v: Seq<SetupStep>) -> Seq<SetupView> {
    v.map_values(|s: SetupStep| s@)
}

/// An optional text, or another one.
pub open spec fn text_or(s: Option<String>, other: Seq<char>) -> Seq<char> {
    match s {
        Some(t) => t@,
        None => other,
    }
}

/// The steps of setting a connection up, in order. Fetched credentials take the
/// place of a certificate or key that is not configured; the authority they
/// came with is trusted where its place is known.
pub open spec fn setup_steps(
    client: TlsDomainClient,
    creds_cert: Seq<char>,
    creds_ca: Option<Seq<char>>,
    host: Seq<char>,
) -> Seq<SetupView> {
    let chain = match text_of_option(client.pem_ca) {
        Some(f) => seq![SetupView::Chain(f)],
        None => Seq::empty(),
    };
    let ca = match creds_ca {
        Some(f) => seq![SetupView::TrustCa(f)],
        None => Seq::empty(),
    };
    seq![SetupView::Certificate(text_or(client.pem_cert, creds_cert))] + chain + seq![
        SetupView::PrivateKey(text_or(client.pem_private_key, creds_cert)),
    ] + texts(client.pem_root_certs@).map_values(|f: Seq<char>| SetupView::TrustRoot(f)) + ca
        + seq![
        SetupView::VerifyHostname(!client.accept_invalid_hostnames),
        SetupView::ConnectTcp(client.connect_timeout),
        SetupView::NoDelay,
        SetupView::WriteTimeout(client.write_timeout),
        SetupView::ReadTimeout(client.read_timeout),
        SetupView::Handshake(text_or(client.expected_cn, host)),
    ]
}

fn push_step(steps: &mut Vec<SetupStep>, s: SetupStep)
    ensures
        setup_views(final(steps)@) == setup_views(old(steps)@).push(s@),
{
    steps.push(s);
    assert(setup_views(steps@) == setup_views(old(steps)@).push(s@));
}

fn text_or_else(s: &Option<String>, other: &str) -> (r: String)
    ensures
        r@ == text_or(*s, other@),
{
    match s {
        Some(t) => t.clone(),
        None => other.to_owned(),
    }
}

/// The steps of setting a connection up. `creds_cert` is where fetched
/// credentials are kept, `creds_ca` where the authority's certificate is kept,
/// and `host` is the host of the remote address.
pub fn plan_setup(
    client: &TlsDomainClient,
    creds_cert: &str,
    creds_ca: &Option<String>,
    host: &str,
) -> (steps: Vec<SetupStep>)
    ensures
        setup_views(steps@) == setup_steps(
            *client,
            creds_cert@,
            text_of_option(*creds_ca),
            host@,
        ),
{
    let mut steps: Vec<SetupStep> = Vec::new();
    assert(setup_views(steps@) == Seq::<SetupView>::empty());
    push_step(&mut steps, SetupStep::Certificate(text_or_else(&client.pem_cert, creds_cert)));
    let ghost so_far = setup_views(steps@);
    assert(so_far == seq![SetupView::Certificate(text_or(client.pem_cert, creds_cert@))]);
    let ghost chain = match text_of_option(client.pem_ca) {
        Some(f) => seq![SetupView::Chain(f)],
        None => Seq::empty(),
    };
    if let Some(f) = &client.pem_ca {
        push_step(&mut steps, SetupStep::Chain(f.clone()));
    }
    assert(setup_views(steps@) == so_far + chain);
    let ghost so_far = setup_views(steps@);
    push_step(&mut steps, SetupStep::PrivateKey(text_or_else(&client.pem_private_key, creds_cert)));
    assert(setup_views(steps@) == so_far + seq![
        SetupView::PrivateKey(text_or(client.pem_private_key, creds_cert@)),
    ]);
    let ghost so_far = setup_views(steps@);
    let ghost roots = texts(client.pem_root_certs@).map_values(
        |f: Seq<char>| SetupView::TrustRoot(f),
    );
    let mut i: usize = 0;
    while i < client.pem_root_certs.len()
        invariant
            i <= client.pem_root_certs.len(),
            roots == texts(client.pem_root_certs@).map_values(
                |f: Seq<char>| SetupView::TrustRoot(f),
            ),
            setup_views(steps@) == so_far + roots.take(i as int),
        decreases client.pem_root_certs.len() - i,
    {
        push_step(&mut steps, SetupStep::TrustRoot(client.pem_root_certs[i].clone()));
        i = i + 1;
        assert(setup_views(steps@) == so_far + roots.take(i as int));
    }
    assert(roots.take(i as int) == roots);
    let ghost so_far = setup_views(steps@);
    let ghost ca = match text_of_option(*creds_ca) {
        Some(f) => seq![SetupView::TrustCa(f)],
        None => Seq::empty(),
    };
    if let Some(f) = creds_ca {
        push_step(&mut steps, SetupStep::TrustCa(f.clone()));
    }
    assert(setup_views(steps@) == so_far + ca);
    let ghost so_far = setup_views(steps@);
    push_step(&mut steps, SetupStep::VerifyHostname(!client.accept_invalid_hostnames));
    push_step(&mut steps, SetupStep::ConnectTcp(client.connect_timeout));
    push_step(&mut steps, SetupStep::NoDelay);
    push_step(&mut steps, SetupStep::WriteTimeout(client.write_timeout));
    push_step(&mut steps, SetupStep::ReadTimeout(client.read_timeout));
    push_step(&mut steps, SetupStep::Handshake(text_or_else(&client.expected_cn, host)));
    assert(setup_views(steps@) == so_far + seq![
        SetupView::VerifyHostname(!client.accept_invalid_hostnames),
        SetupView::ConnectTcp(client.connect_timeout),
        SetupView::NoDelay,
        SetupView::WriteTimeout(client.write_timeout),
        SetupView::ReadTimeout(client.read_timeout),
        SetupView::Handshake(text_or(client.expected_cn, host@)),
    ]);
    steps
}

/// The host name is checked unless the domain says not to, and the check is
/// settled before the server is even connected to. The handshake comes last,
/// on a socket that has its timeouts.
pub proof fn hostnames_are_verified_by_default(
    client: TlsDomainClient,
    creds_cert: Seq<char>,
    creds_ca: Option<Seq<char>>,
    host: Seq<char>,
)
    ensures
        ({
            let steps = setup_steps(client, creds_cert, creds_ca, host);
            let n = steps.len();
            &&& n >= 8
            &&& steps[n - 6] == SetupView::VerifyHostname(!client.accept_invalid_hostnames)
            &&& steps[n - 5] == SetupView::ConnectTcp(client.connect_timeout)
            &&& steps[n - 4] is NoDelay
            &&& steps[n - 3] == SetupView::WriteTimeout(client.write_timeout)
            &&& steps[n - 2] == SetupView::ReadTimeout(client.read_timeout)
            &&& steps[n - 1] is Handshake
        }),
{
}

/// The parts of replacing a file, in order.
#[derive(Debug, Clone, Copy, PartialEq, Eq, Structural)]
pub enum WriteStep {
    /// Remove what an interrupted run left under the temporary name.
    RemoveStale,
    /// Create the temporary file anew, for the owner only if asked.
    Create,
    Write,
    /// Flush it to disk.
    Sync,
    /// Give it its name.
    Rename,
    Done,
    Failed,
}

/// What a part came to.
#[derive(Debug, Clone, Copy, PartialEq, Eq, Structural)]
pub enum WriteResult {
    Succeeded,
    /// The file was not there.
    NotFound,
    Failed,
}

impl WriteStep {
    /// The part that follows. Only a stale file may be missing.
    pub open spec fn following(self, result: WriteResult) -> WriteStep {
        if result is Failed || (result is NotFound && !(self is RemoveStale)) {
            WriteStep::Failed
        } else {
            match self {
                WriteStep::RemoveStale => WriteStep::Create,
                WriteStep::Create => WriteStep::Write,
                WriteStep::Write => WriteStep::Sync,
                WriteStep::Sync => WriteStep::Rename,
                WriteStep::Rename => WriteStep::Done,
                _ => self,
            }
        }
    }

    /// The part that follows.
    pub fn next(self, result: WriteResult) -> (r: WriteStep)
        requires
            !(self is Done),
            !(self is Failed),
        ensures
            r == self.following(result),
    {
        let fine = match result {
            WriteResult::Succeeded => true,
            WriteResult::NotFound => self == WriteStep::RemoveStale,
            WriteResult::Failed => false,
        };
        if !fine {
            return WriteStep::Failed;
        }
        match self {
            WriteStep::RemoveStale => WriteStep::Create,
            WriteStep::Create => WriteStep::Write,
            WriteStep::Write => WriteStep::Sync,
            WriteStep::Sync => WriteStep::Rename,
            WriteStep::Rename => WriteStep::Done,
            WriteStep::Done => WriteStep::Done,
            WriteStep::Failed => WriteStep::Failed,
        }
    }

    pub open spec fn failure_text(self, temporary: Seq<char>, path: Seq<char>) -> Seq<char> {
        match self {
            WriteStep::RemoveStale => "replacing "@ + temporary,
            WriteStep::Create => "creating "@ + temporary,
            WriteStep::Write => "writing "@ + temporary,
            WriteStep::Sync => "syncing "@ + temporary,
            _ => "renaming "@ + temporary + " to "@ + path,
        }
    }

    /// What is said of a part that failed.
    pub fn failure(self, temporary: &str, path: &str) -> (s: String)
        ensures
            s@ == self.failure_text(temporary@, path@),
    {
        let verb = match self {
            WriteStep::RemoveStale => "replacing ",
            WriteStep::Create => "creating ",
            WriteStep::Write => "writing ",
            WriteStep::Sync => "syncing ",
            _ => {
                let mut s = join3("renaming ", temporary, " to ");
                s.append(path);
                return s;
            },
        };
        let mut s = verb.to_owned();
        s.append(temporary);
        s
    }
}

/// The temporary name that a process uses next to a file.
pub open spec fn temporary_name(path: Seq<char>, pid: nat) -> Seq<char> {
    path + ".tmp."@ + decimal(pid)
}

/// Two processes never share a temporary name for the same file.
pub proof fn temporary_names_are_not_shared(path: Seq<char>, a: nat, b: nat)
    requires
        temporary_name(path, a) == temporary_name(path, b),
    ensures
        a == b,
{
    let n = (path + ".tmp."@).len();
    assert(temporary_name(path, a).skip(n as int) == decimal(a));
    assert(temporary_name(path, b).skip(n as int) == decimal(b));
    decimal_is_read_back(a);
    decimal_is_read_back(b);
}

/// The temporary name next to a file.
pub fn temporary_path(path: &str, pid: u32) -> (s: String)
    ensures
        s@ == temporary_name(path@, pid as nat),
{
    let mut s = path.to_owned();
    s.append(".tmp.");
    s.append(decimal_text(pid as u64).as_str());
    s
}

/// A file only gets its name once it has been written and flushed: the rename
/// follows nothing but a successful flush, and success follows nothing but a
/// successful rename.
pub proof fn files_are_published_whole(s: WriteStep, result: WriteResult)
    requires
        !(s is Done),
        !(s is Failed),
    ensures
        s.following(result) is Rename ==> s is Sync && result is Succeeded,
        s.following(result) is Sync ==> s is Write && result is Succeeded,
        s.following(result) is Write ==> s is Create && result is Succeeded,
        s.following(result) is Done ==> s is Rename && result is Succeeded,
{
}

/// The file names of fetched credentials within their directory.
pub fn creds_file(directory: &str, name: &str) -> (s: String)
    ensures
        s@ == joined(directory@, name@),
{
    join(directory, name)
}

/// The client's certificate is loaded once and first, its private key once and
/// after the certificate and any chain. Each comes from the file that the domain
/// names for it, and otherwise from the file of fetched credentials.
pub proof fn certificate_and_key_are_loaded_once(
    client: TlsDomainClient,
    creds_cert: Seq<char>,
    creds_ca: Option<Seq<char>>,
    host: Seq<char>,
)
    ensures
        ({
            let steps = setup_steps(client, creds_cert, creds_ca, host);
            let key: int = if client.pem_ca is Some {
                2
            } else {
                1
            };
            &&& key < steps.len()
            &&& steps[0] is Certificate
            &&& steps[key] is PrivateKey
            &&& forall|i: int| 0 <= i < steps.len() ==> ((#[trigger] steps[i]) is Certificate <==> i == 0)
            &&& forall|i: int| 0 <= i < steps.len() ==> ((#[trigger] steps[i]) is PrivateKey <==> i == key)
            &&& client.pem_cert is Some ==> steps[0]->Certificate_0 == client.pem_cert->0@
            &&& client.pem_cert is None ==> steps[0]->Certificate_0 == creds_cert
            &&& client.pem_private_key is Some ==> steps[key]->PrivateKey_0
                == client.pem_private_key->0@
            &&& client.pem_private_key is None ==> steps[key]->PrivateKey_0 == creds_cert
        }),
{
}

/// Where neither a certificate nor a key is configured, both are loaded from one
/// file, that of fetched credentials.
pub proof fn fetched_credentials_are_one_file(
    client: TlsDomainClient,
    creds_cert: Seq<char>,
    creds_ca: Option<Seq<char>>,
    host: Seq<char>,
    i: int,
    j: int,
)
    requires
        client.pem_cert is None,
        client.pem_private_key is None,
        0 <= i < setup_steps(client, creds_cert, creds_ca, host).len(),
        0 <= j < setup_steps(client, creds_cert, creds_ca, host).len(),
        setup_steps(client, creds_cert, creds_ca, host)[i] is Certificate,
        setup_steps(client, creds_cert, creds_ca, host)[j] is PrivateKey,
    ensures
        ({
            let steps = setup_steps(client, creds_cert, creds_ca, host);
            &&& steps[i]->Certificate_0 == steps[j]->PrivateKey_0
            &&& steps[j]->PrivateKey_0 == creds_cert
        }),
{
    certificate_and_key_are_loaded_once(client, creds_cert, creds_ca, host);
}

/// A chain is loaded exactly where the domain names one, once, right after the
/// certificate whose place it takes.
pub proof fn a_configured_chain_is_loaded(
    client: TlsDomainClient,
    creds_cert: Seq<char>,
    creds_ca: Option<Seq<char>>,
    host: Seq<char>,
)
    ensures
        ({
            let steps = setup_steps(client, creds_cert, creds_ca, host);
            &&& steps.len() > 1
            &&& client.pem_ca is Some ==> steps[1] == SetupView::Chain(client.pem_ca->0@)
            &&& forall|i: int|
                0 <= i < steps.len() ==> ((#[trigger] steps[i]) is Chain <==> client.pem_ca is Some && i == 1)
        }),
{
}

/// Exactly the roots that the domain lists are trusted, in its order, and then
/// the authority that the fetched credentials came with, where its place is
/// known. No other step trusts anything.
pub proof fn only_named_roots_are_trusted(
    client: TlsDomainClient,
    creds_cert: Seq<char>,
    creds_ca: Option<Seq<char>>,
    host: Seq<char>,
)
    ensures
        ({
            let steps = setup_steps(client, creds_cert, creds_ca, host);
            let roots = client.pem_root_certs@;
            let from: int = if client.pem_ca is Some {
                3
            } else {
                2
            };
            let to = from + roots.len();
            &&& to < steps.len()
            &&& forall|k: int|
                0 <= k < roots.len() ==> (#[trigger] steps[from + k]) == SetupView::TrustRoot(
                    roots[k]@,
                )
            &&& forall|i: int|
                0 <= i < steps.len() ==> ((#[trigger] steps[i]) is TrustRoot <==> from <= i < to)
            &&& creds_ca is Some ==> steps[to] == SetupView::TrustCa(creds_ca->0)
            &&& forall|i: int|
                0 <= i < steps.len() ==> ((#[trigger] steps[i]) is TrustCa <==> creds_ca is Some && i == to)
        }),
{
}

/// The server has to bear the name that the domain expects of it, and otherwise
/// that of the host; there is one handshake, it comes last, and everything that
/// is trusted or loaded is so before the server is connected to.
pub proof fn the_handshake_names_the_server(
    client: TlsDomainClient,
    creds_cert: Seq<char>,
    creds_ca: Option<Seq<char>>,
    host: Seq<char>,
)
    ensures
        ({
            let steps = setup_steps(client, creds_cert, creds_ca, host);
            let n = steps.len();
            &&& n > 6
            &&& client.expected_cn is Some ==> steps[n - 1] == SetupView::Handshake(
                client.expected_cn->0@,
            )
            &&& client.expected_cn is None ==> steps[n - 1] == SetupView::Handshake(host)
            &&& forall|i: int| 0 <= i < n ==> ((#[trigger] steps[i]) is Handshake <==> i == n - 1)
            &&& forall|i: int| 0 <= i < n ==> ((#[trigger] steps[i]) is ConnectTcp <==> i == n - 5)
            &&& forall|i: int| 0 <= i < n ==> ((#[trigger] steps[i]) is VerifyHostname <==> i == n - 6)
            &&& forall|i: int| 0 <= i < n ==> ((#[trigger] steps[i]) is NoDelay <==> i == n - 4)
            &&& forall|i: int| 0 <= i < n ==> ((#[trigger] steps[i]) is WriteTimeout <==> i == n - 3)
            &&& forall|i: int| 0 <= i < n ==> ((#[trigger] steps[i]) is ReadTimeout <==> i == n - 2)
        }),
{
}

/// Fetching credentials runs its course: the session, the command, its end, what
/// it wrote, the authority's certificate, the client's own, and only then the
/// connection, which is used if it comes about. From the last file on there are
/// credentials.
pub proof fn a_bootstrap_runs_its_course(c: TlsConnect)
    requires
        c.stage is Reporting,
        c.bootstrap,
        !c.has_creds,
    ensures
        ({
            let (opening, open) = c.next(TlsEvent::Succeeded);
            let (running, run) = opening.next(TlsEvent::Succeeded);
            let (waiting, wait) = running.next(TlsEvent::Succeeded);
            let (reading, read) = waiting.next(TlsEvent::Succeeded);
            let (writing_ca, write_ca) = reading.next(TlsEvent::Succeeded);
            let (writing_cert, write_cert) = writing_ca.next(TlsEvent::Succeeded);
            let (connecting, connect) = writing_cert.next(TlsEvent::Succeeded);
            let (done, used) = connecting.next(TlsEvent::Succeeded);
            &&& open is OpenSsh && run is RunCommand && wait is WaitCommand
            &&& read is ReadCredentials && write_ca is WriteCa && write_cert is WriteCert
            &&& connect is TryConnect && used is Use
            &&& !writing_cert.has_creds && connecting.has_creds && connecting.bootstrap
            &&& opening.next(TlsEvent::Failed).1 is Fail && running.next(TlsEvent::Failed).1 is Fail
            &&& waiting.next(TlsEvent::Failed).1 is Fail && reading.next(TlsEvent::Failed).1 is Fail
            &&& writing_ca.next(TlsEvent::Failed).1 is Fail
            &&& writing_cert.next(TlsEvent::Failed).1 is Fail
            &&& !done.expects(TlsEvent::Succeeded) && !done.expects(TlsEvent::Failed)
        }),
{
}

/// The credentials there are get one try. Whatever went wrong with them but the
/// way to the host is reported and followed by another try, after fetching them
/// where there are none and somewhere to fetch them from; a second failure to
/// connect is final, and a connection that comes about is used.
pub proof fn connecting_is_tried_anew_at_most_once(c: TlsConnect, e: ConnectError)
    ensures
        ({
            let (after, action) = c.next(TlsEvent::ConnectFailed(e));
            let then = after.next(TlsEvent::Succeeded).1;
            &&& c.stage is Reusing && e is OtherIo ==> action is Fail
            &&& c.stage is Reusing && !(e is OtherIo) ==> action is ReportReuseFailed
            &&& c.stage is Reusing && !(e is OtherIo) ==> after.has_creds == c.has_creds
                && after.bootstrap == c.bootstrap
            &&& c.stage is Reusing && !(e is OtherIo) && c.bootstrap && !c.has_creds
                ==> then is OpenSsh
            &&& c.stage is Reusing && !(e is OtherIo) && (!c.bootstrap || c.has_creds)
                ==> then is TryConnect
            &&& c.stage is Connecting ==> action is Fail && !after.expects(TlsEvent::Succeeded)
            &&& c.stage is Reusing || c.stage is Connecting ==> c.next(TlsEvent::Succeeded).1 is Use
        }),
{
}

/// Each action is followed by word of how it went: an attempt to connect by the
/// kind of trouble there was, the others by success or failure, the report by its
/// being made, and the end by nothing.
pub proof fn each_tls_action_has_its_outcomes(c: TlsConnect, event: TlsEvent, then: TlsEvent)
    requires
        c.expects(event),
    ensures
        ({
            let (after, action) = c.next(event);
            after.expects(then) <==> match action {
                TlsAction::TryConnect => then is Succeeded || then is ConnectFailed,
                TlsAction::ReportReuseFailed => then is Succeeded,
                TlsAction::Use => false,
                TlsAction::Fail => false,
                _ => then is Succeeded || then is Failed,
            }
        }),
{
}

/// Replacing a file goes through all of its parts where each succeeds, whether or
/// not there was a stale file to remove, and ends at the first that does not.
pub proof fn replacing_a_file_goes_through_its_parts(s: WriteStep)
    ensures
        ({
            let ok = WriteResult::Succeeded;
            let created = WriteStep::RemoveStale.following(ok);
            &&& created is Create
            &&& WriteStep::RemoveStale.following(WriteResult::NotFound) == created
            &&& created.following(ok).following(ok).following(ok).following(ok) is Done
            &&& !(s is Done) ==> s.following(WriteResult::Failed) is Failed
            &&& !(s is Done) && !(s is RemoveStale) ==> s.following(
                WriteResult::NotFound,
            ) is Failed
        }),
{
}

/// The temporary name begins with that of the file, so that both are in one
/// directory, and is another.
pub proof fn the_temporary_file_is_next_to_its_file(path: Seq<char>, pid: nat)
    ensures
        temporary_name(path, pid).take(path.len() as int) == path,
        temporary_name(path, pid).len() > path.len(),
{
    reveal_strlit(".tmp.");
    assert(temporary_name(path, pid).take(path.len() as int) == path);
}

/// The user is shown what went wrong from the command on; the credentials there
/// were, the report about them and the ssh session speak for themselves.
pub proof fn failures_are_shown_from_the_command_on(s: TlsStage)
    ensures
        !s.is_unseen() <==> s is Reusing || s is Reporting || s is Ssh || s is Finished,
{
}

/// What is said of a part that failed says which part it was, and of which file.
pub proof fn failed_parts_name_their_file(temporary: Seq<char>, path: Seq<char>)
    ensures
        WriteStep::RemoveStale.failure_text(temporary, path) == "replacing "@ + temporary,
        WriteStep::Create.failure_text(temporary, path) == "creating "@ + temporary,
        WriteStep::Write.failure_text(temporary, path) == "writing "@ + temporary,
        WriteStep::Sync.failure_text(temporary, path) == "syncing "@ + temporary,
        WriteStep::Rename.failure_text(temporary, path) == "renaming "@ + temporary + " to "@
            + path,
{
}

} // verus!
