//! The session thread's side of an SSH connection: what it knows, which request
//! it serves how, and when it stops.

use crate::channels::{
    ids_distinct, ChannelId, ChannelInfo, ChannelOutcome, ChannelPlan, ChannelView, Channels,
    DescriptorState, DescriptorView, TickResult,
};
use crate::channels::{all_admit, all_wf, exit_notices, survivors};
use crate::config_map::ConfigMap;
use crate::text::{decimal, decimal_is_read_back, decimal_text, parse_u64, unsigned_value};
use crate::stream::{ReadOutcome, WriteOutcome};
use std::collections::HashSet;
use vstd::prelude::*;

verus! {

/// Shortest wait in the session poll loop, in milliseconds, and the value the
/// backoff resets to after any activity.
pub const MIN_POLL_DELAY: u64 = 100;

/// Upper bound for the poll backoff, in milliseconds. Bytes buffered inside the
/// SSH library do not make the socket readable, so this bounds how long they
/// can wait.
pub const MAX_POLL_DELAY: u64 = 250;

/// Names an open file or directory of a session.
pub type FileId = usize;

/// What the session thread knows.
pub struct SessionInner {
    config: ConfigMap,
    channels: Channels,
    files: HashSet<FileId>,
    dirs: HashSet<FileId>,
    next_channel_id: ChannelId,
    next_file_id: FileId,
    session_was_dropped: bool,
    shutdown_requested: bool,
    last_keep_alive: u64,
    keep_alive: Option<u64>,
    established: bool,
    authenticated_with_key: bool,
    undelivered_since: Option<u64>,
    unanswered_ms: u64,
}

/// The same, as mathematical values. Moments are milliseconds on one clock and
/// the keepalive interval is in seconds.
pub struct SessionView {
    pub config: Map<Seq<char>, Seq<char>>,
    pub channels: Seq<ChannelView>,
    pub files: Set<FileId>,
    pub dirs: Set<FileId>,
    pub next_channel_id: ChannelId,
    pub next_file_id: FileId,
    pub session_was_dropped: bool,
    pub shutdown_requested: bool,
    pub last_keep_alive: u64,
    pub keep_alive: Option<u64>,
    pub established: bool,
    pub authenticated_with_key: bool,
    pub undelivered_since: Option<u64>,
    pub unanswered_ms: u64,
}

/// Whether an option is set to exactly this value.
pub open spec fn option_is(config: Map<Seq<char>, Seq<char>>, name: Seq<char>, value: Seq<char>) -> bool {
    config.dom().contains(name) && config[name] == value
}

/// The number an option spells, where it is set and is one.
pub open spec fn option_number(config: Map<Seq<char>, Seq<char>>, name: Seq<char>) -> Option<nat> {
    if config.dom().contains(name) {
        unsigned_value(config[name], u64::MAX as nat)
    } else {
        None
    }
}

/// How often to send a keepalive, in seconds: a positive number, or never.
pub open spec fn keep_alive_seconds(config: Map<Seq<char>, Seq<char>>) -> Option<u64> {
    match option_number(config, "serveraliveinterval"@) {
        Some(n) => if n == 0 {
            None
        } else {
            Some(n as u64)
        },
        None => None,
    }
}

/// How long a connection attempt may take, in seconds. Neither zero nor
/// something that is no number means "without limit": both mean the default.
pub open spec fn connect_seconds(config: Map<Seq<char>, Seq<char>>) -> u64 {
    match option_number(config, "connecttimeout"@) {
        Some(n) => if n == 0 {
            10
        } else {
            n as u64
        },
        None => 10,
    }
}

/// How long ago a moment was; one that is yet to come counts as now.
pub open spec fn elapsed(now: u64, since: u64) -> u64 {
    if now >= since {
        (now - since) as u64
    } else {
        0
    }
}

impl SessionView {
    /// Ids are handed out once, and each is below the next one to be handed
    /// out; files and directories draw on the same numbers.
    pub open spec fn wf(self) -> bool {
        &&& all_wf(self.channels)
        &&& ids_distinct(self.channels)
        &&& forall|i: int|
            0 <= i < self.channels.len() ==> (#[trigger] self.channels[i]).channel_id
                < self.next_channel_id
        &&& forall|f: FileId| #[trigger] self.files.contains(f) ==> f < self.next_file_id
        &&& forall|f: FileId| #[trigger] self.dirs.contains(f) ==> f < self.next_file_id
        &&& self.files.disjoint(self.dirs)
        &&& self.keep_alive != Some(0u64)
    }

    /// What the far end leaves unacknowledged is timed from when it first did,
    /// and any moment with nothing outstanding clears it.
    pub open spec fn delivery_noted(self, outstanding: Option<u32>, now: u64) -> SessionView {
        match outstanding {
            None => self,
            Some(bytes) => {
                let since = if bytes == 0 {
                    None
                } else if self.undelivered_since is Some {
                    self.undelivered_since
                } else {
                    Some(now)
                };
                SessionView {
                    undelivered_since: since,
                    unanswered_ms: match since {
                        Some(s) => elapsed(now, s),
                        None => 0,
                    },
                    ..self
                }
            },
        }
    }

    /// The session after a look at its keepalive, and whether one is sent: only
    /// libssh sends any, and what was sent starts the interval anew.
    pub open spec fn kept_alive(self, libssh: bool, now: u64) -> (SessionView, bool) {
        if libssh && self.keepalive_due(now) {
            (SessionView { last_keep_alive: now, ..self }, true)
        } else {
            (self, false)
        }
    }

    /// Whether a keepalive is due.
    pub open spec fn keepalive_due(self, now: u64) -> bool {
        match self.keep_alive {
            Some(seconds) => elapsed(now, self.last_keep_alive) >= seconds * 1000,
            None => false,
        }
    }
}

/// What came of serving one ready descriptor.
#[derive(Debug)]
pub enum ReadyOutcome {
    /// The stream to the remote side was read.
    Read(ReadOutcome),
    /// Buffered output was written.
    Wrote(WriteOutcome),
    /// An output stream was closed.
    Closed,
}

impl ChannelView {
    /// The outcome is one that the stream can have.
    pub open spec fn admits_ready(self, fd_num: usize, outcome: ReadyOutcome) -> bool {
        match outcome {
            ReadyOutcome::Read(r) => fd_num == 0 && (r matches ReadOutcome::Data(d) ==> 0
                < d@.len() <= self.stdin.limit - self.stdin.buf.len()),
            ReadyOutcome::Wrote(w) => (fd_num == 1 || fd_num == 2) && (
            w matches WriteOutcome::Wrote(n) ==> n <= self.output(fd_num).buf.len()),
            ReadyOutcome::Closed => fd_num == 1 || fd_num == 2,
        }
    }

    /// The channel after one of its descriptors was served.
    pub open spec fn readied(self, fd_num: usize, outcome: ReadyOutcome) -> ChannelView {
        match outcome {
            ReadyOutcome::Read(r) => ChannelView { stdin: self.stdin.filled(r), ..self },
            ReadyOutcome::Wrote(w) => self.with_output(
                fd_num,
                self.output(fd_num).after_write(w),
            ),
            ReadyOutcome::Closed => self.with_output(
                fd_num,
                DescriptorView { fd: None, ..self.output(fd_num) },
            ),
        }
    }
}

/// Why the request loop stops.
#[derive(Debug, Clone, Copy, PartialEq, Eq, Structural)]
pub enum LoopEnd {
    /// The owner closed the connection.
    Closed,
    /// Every handle is gone and no channel is left.
    Drained,
    /// The connection was lost.
    Lost,
    /// Nobody is left who could ask for anything.
    Abandoned,
}

impl LoopEnd {
    pub open spec fn error_text(self) -> Option<Seq<char>> {
        match self {
            LoopEnd::Closed => None,
            LoopEnd::Drained => None,
            LoopEnd::Lost => Some("the connection to the host was lost"@),
            LoopEnd::Abandoned => Some("all clients are closed"@),
        }
    }

    /// What is said of it, where the loop ends with an error.
    pub fn error(self) -> (r: Option<String>)
        ensures
            match self.error_text() {
                Some(text) => r matches Some(s) && s@ == text,
                None => r is None,
            },
    {
        match self {
            LoopEnd::Closed => None,
            LoopEnd::Drained => None,
            LoopEnd::Lost => Some("the connection to the host was lost".to_owned()),
            LoopEnd::Abandoned => Some("all clients are closed".to_owned()),
        }
    }
}

/// The calls that go to the sftp subsystem, which the first of them starts.
#[derive(Debug, Clone, Copy, PartialEq, Eq, Structural)]
pub enum SftpCall {
    OpenWithMode,
    OpenDir,
    ReadDir,
    CreateDir,
    RemoveDir,
    Metadata,
    SymlinkMetadata,
    SetMetadata,
    Symlink,
    ReadLink,
    Canonicalize,
    Rename,
    RemoveFile,
}

/// The calls on an open file.
#[derive(Debug, Clone, Copy, PartialEq, Eq, Structural)]
pub enum FileCall {
    Write,
    Read,
    Flush,
    SetMetadata,
    Metadata,
    Fsync,
}

/// What the holders of a session ask of its thread. The payload of a call stays
/// with whoever carries it out; here is what decides about it.
#[derive(Debug, Clone, Copy, PartialEq, Eq, Structural)]
pub enum SessionRequest {
    NewPty,
    /// Whether somebody waits for the answer.
    ResizePty { reply: bool },
    Exec,
    Sftp(SftpCall),
    File(FileCall, FileId),
    CloseFile(FileId),
    CloseDir(FileId),
    ReadOpenDir(FileId),
    SignalChannel(ChannelId),
    /// The handles are gone; finish once the channels have drained.
    SessionDropped,
    /// Close the connection now, whatever is still open on it.
    Shutdown,
}

/// What the request queue holds.
#[derive(Debug, Clone, Copy, PartialEq, Eq, Structural)]
pub enum Received {
    Closed,
    Empty,
    Request(SessionRequest),
}

/// Why a request is answered without being carried out.
#[derive(Debug, Clone, Copy, PartialEq, Eq, Structural)]
pub enum RequestRefused {
    /// "invalid file_id".
    InvalidFileId,
    /// "invalid dir_id".
    InvalidDirId,
    /// "invalid channel id" and the id.
    InvalidChannel(ChannelId),
}

/// How one request is served.
#[derive(Debug, Clone, Copy, PartialEq, Eq, Structural)]
pub enum Service {
    /// Nothing is to be done beyond what was noted.
    Noted,
    /// Carry the request out, with the session in blocking mode.
    Perform,
    /// The request is done.
    Done,
    /// The request cannot be carried out.
    Refuse(RequestRefused),
}

/// What to do about what the queue held.
#[derive(Debug, Clone, Copy, PartialEq, Eq, Structural)]
pub enum Dispatch {
    /// Nothing can be queued any more.
    AllClientsClosed,
    /// The queue is empty for now.
    Idle,
    /// Serve the request, and look for another one if `more`.
    Serve { service: Service, more: bool },
}

impl Dispatch {
    pub open spec fn loop_end(self) -> Option<LoopEnd> {
        if self is AllClientsClosed {
            Some(LoopEnd::Abandoned)
        } else {
            None
        }
    }

    /// Whether the loop ends here, without a look at anything else: a queue that
    /// is closed ends it with an error.
    pub fn ending(self) -> (r: Option<LoopEnd>)
        ensures
            r == self.loop_end(),
    {
        match self {
            Dispatch::AllClientsClosed => Some(LoopEnd::Abandoned),
            Dispatch::Idle => None,
            Dispatch::Serve { .. } => None,
        }
    }
}

impl SessionView {
    /// How a request is served.
    pub open spec fn service(self, request: SessionRequest) -> Service {
        match request {
            SessionRequest::SessionDropped => Service::Noted,
            SessionRequest::Shutdown => Service::Noted,
            SessionRequest::File(_, id) => if self.files.contains(id) {
                Service::Perform
            } else {
                Service::Refuse(RequestRefused::InvalidFileId)
            },
            SessionRequest::CloseFile(_) => Service::Done,
            SessionRequest::CloseDir(id) => if self.dirs.contains(id) {
                Service::Done
            } else {
                Service::Refuse(RequestRefused::InvalidDirId)
            },
            SessionRequest::ReadOpenDir(id) => if self.dirs.contains(id) {
                Service::Perform
            } else {
                Service::Refuse(RequestRefused::InvalidDirId)
            },
            SessionRequest::SignalChannel(id) => if exists|i: int|
                0 <= i < self.channels.len() && (#[trigger] self.channels[i]).channel_id == id {
                Service::Perform
            } else {
                Service::Refuse(RequestRefused::InvalidChannel(id))
            },
            _ => Service::Perform,
        }
    }

    /// What taking a request up changes.
    pub open spec fn taken_up(self, request: SessionRequest) -> SessionView {
        match request {
            SessionRequest::SessionDropped => SessionView { session_was_dropped: true, ..self },
            SessionRequest::Shutdown => SessionView { shutdown_requested: true, ..self },
            SessionRequest::CloseFile(id) => SessionView { files: self.files.remove(id), ..self },
            SessionRequest::CloseDir(id) => SessionView { dirs: self.dirs.remove(id), ..self },
            _ => self,
        }
    }

    /// Whether the loop ends here, and how: a connection that its owner closed
    /// is reported as closed rather than as lost.
    pub open spec fn ending(self, connected: bool) -> Option<LoopEnd> {
        if self.shutdown_requested {
            Some(LoopEnd::Closed)
        } else if self.channels.len() == 0 && self.session_was_dropped {
            Some(LoopEnd::Drained)
        } else if !connected {
            Some(LoopEnd::Lost)
        } else {
            None
        }
    }

    /// The session with one more channel, which has the next id.
    pub open spec fn with_channel(
        self,
        exit: Option<u64>,
        stdin: Option<u64>,
        stdout: Option<u64>,
        stderr: Option<u64>,
    ) -> SessionView {
        SessionView {
            channels: self.channels.push(
                ChannelView {
                    channel_id: self.next_channel_id,
                    exit,
                    exited: false,
                    stdin: DescriptorView::fresh(stdin),
                    stdout: DescriptorView::fresh(stdout),
                    stderr: DescriptorView::fresh(stderr),
                },
            ),
            next_channel_id: (self.next_channel_id + 1) as usize,
            ..self
        }
    }
}

/// What a request is called where its answer is missed.
pub open spec fn request_label(request: SessionRequest) -> Seq<char> {
    match request {
        SessionRequest::NewPty => "NewPty"@,
        SessionRequest::ResizePty { .. } => "resize_pty"@,
        SessionRequest::Exec => "exec"@,
        SessionRequest::Sftp(call) => match call {
            SftpCall::OpenWithMode => "OpenWithMode"@,
            SftpCall::OpenDir => "OpenDir"@,
            SftpCall::ReadDir => "read_dir"@,
            SftpCall::CreateDir => "create_dir"@,
            SftpCall::RemoveDir => "remove_dir"@,
            SftpCall::Metadata => "metadata"@,
            SftpCall::SymlinkMetadata => "symlink_metadata"@,
            SftpCall::SetMetadata => "set_metadata"@,
            SftpCall::Symlink => "symlink"@,
            SftpCall::ReadLink => "read_link"@,
            SftpCall::Canonicalize => "canonicalize"@,
            SftpCall::Rename => "rename"@,
            SftpCall::RemoveFile => "remove_file"@,
        },
        SessionRequest::File(call, _) => match call {
            FileCall::Write => "write_file"@,
            FileCall::Read => "read_file"@,
            FileCall::Flush => "flush_file"@,
            FileCall::SetMetadata => "set_metadata_file"@,
            FileCall::Metadata => "metadata_file"@,
            FileCall::Fsync => "fsync"@,
        },
        SessionRequest::CloseFile(_) => "close_file"@,
        SessionRequest::CloseDir(_) => "close_dir"@,
        SessionRequest::ReadOpenDir(_) => "read_dir"@,
        SessionRequest::SignalChannel(_) => "signal_channel"@,
        SessionRequest::SessionDropped => "session_dropped"@,
        SessionRequest::Shutdown => "shutdown"@,
    }
}

impl SessionRequest {
    /// What the request is called where its answer is missed.
    pub fn label(&self) -> (s: &'static str)
        ensures
            s@ == request_label(*self),
    {
        match *self {
            SessionRequest::NewPty => "NewPty",
            SessionRequest::ResizePty { .. } => "resize_pty",
            SessionRequest::Exec => "exec",
            SessionRequest::Sftp(call) => match call {
                SftpCall::OpenWithMode => "OpenWithMode",
                SftpCall::OpenDir => "OpenDir",
                SftpCall::ReadDir => "read_dir",
                SftpCall::CreateDir => "create_dir",
                SftpCall::RemoveDir => "remove_dir",
                SftpCall::Metadata => "metadata",
                SftpCall::SymlinkMetadata => "symlink_metadata",
                SftpCall::SetMetadata => "set_metadata",
                SftpCall::Symlink => "symlink",
                SftpCall::ReadLink => "read_link",
                SftpCall::Canonicalize => "canonicalize",
                SftpCall::Rename => "rename",
                SftpCall::RemoveFile => "remove_file",
            },
            SessionRequest::File(call, _) => match call {
                FileCall::Write => "write_file",
                FileCall::Read => "read_file",
                FileCall::Flush => "flush_file",
                FileCall::SetMetadata => "set_metadata_file",
                FileCall::Metadata => "metadata_file",
                FileCall::Fsync => "fsync",
            },
            SessionRequest::CloseFile(_) => "close_file",
            SessionRequest::CloseDir(_) => "close_dir",
            SessionRequest::ReadOpenDir(_) => "read_dir",
            SessionRequest::SignalChannel(_) => "signal_channel",
            SessionRequest::SessionDropped => "session_dropped",
            SessionRequest::Shutdown => "shutdown",
        }
    }
}

impl RequestRefused {
    pub open spec fn text(self) -> Seq<char> {
        match self {
            RequestRefused::InvalidFileId => "invalid file_id"@,
            RequestRefused::InvalidDirId => "invalid dir_id"@,
            RequestRefused::InvalidChannel(id) => "invalid channel id "@ + decimal(id as nat),
        }
    }

    /// The refusal as it is reported.
    pub fn message(&self) -> (s: String)
        ensures
            s@ == self.text(),
    {
        match *self {
            RequestRefused::InvalidFileId => "invalid file_id".to_owned(),
            RequestRefused::InvalidDirId => "invalid dir_id".to_owned(),
            RequestRefused::InvalidChannel(id) => {
                let mut s = "invalid channel id ".to_owned();
                s.append(decimal_text(id as u64).as_str());
                s
            },
        }
    }
}

impl View for SessionInner {
    type V = SessionView;

    closed spec fn view(&self) -> SessionView {
        SessionView {
            config: self.config@,
            channels: self.channels@,
            files: self.files@,
            dirs: self.dirs@,
            next_channel_id: self.next_channel_id,
            next_file_id: self.next_file_id,
            session_was_dropped: self.session_was_dropped,
            shutdown_requested: self.shutdown_requested,
            last_keep_alive: self.last_keep_alive,
            keep_alive: self.keep_alive,
            established: self.established,
            authenticated_with_key: self.authenticated_with_key,
            undelivered_since: self.undelivered_since,
            unanswered_ms: self.unanswered_ms,
        }
    }
}

fn elapsed_since(now: u64, since: u64) -> (r: u64)
    ensures
        r == elapsed(now, since),
{
    if now >= since {
        now - since
    } else {
        0
    }
}

impl SessionInner {
    pub closed spec fn wf(&self) -> bool {
        &&& self.config.wf()
        &&& self.channels.wf()
        &&& self@.wf()
    }

    /// A session that has not been established yet.
    pub fn new(config: ConfigMap, now: u64) -> (s: SessionInner)
        requires
            config.wf(),
        ensures
            s.wf(),
            s@ == (SessionView {
                config: config@,
                channels: Seq::empty(),
                files: Set::empty(),
                dirs: Set::empty(),
                next_channel_id: 1,
                next_file_id: 1,
                session_was_dropped: false,
                shutdown_requested: false,
                last_keep_alive: now,
                keep_alive: keep_alive_seconds(config@),
                established: false,
                authenticated_with_key: false,
                undelivered_since: None,
                unanswered_ms: 0,
            }),
    {
        let keep_alive = match config.get("serveraliveinterval") {
            Some(value) => match parse_u64(value.as_str()) {
                Some(seconds) => if seconds == 0 {
                    None
                } else {
                    Some(seconds)
                },
                None => None,
            },
            None => None,
        };
        let s = SessionInner {
            config,
            channels: Channels::new(),
            files: HashSet::new(),
            dirs: HashSet::new(),
            next_channel_id: 1,
            next_file_id: 1,
            session_was_dropped: false,
            shutdown_requested: false,
            last_keep_alive: now,
            keep_alive,
            established: false,
            authenticated_with_key: false,
            undelivered_since: None,
            unanswered_ms: 0,
        };
        assert(s@.files == Set::<FileId>::empty());
        assert(s@.dirs == Set::<FileId>::empty());
        s
    }

    /// Whether the session has come as far as serving requests.
    pub fn is_established(&self) -> (r: bool)
        ensures
            r == self@.established,
    {
        self.established
    }

    /// Whether a public key won this session's authentication.
    pub fn authenticated_with_key(&self) -> (r: bool)
        ensures
            r == self@.authenticated_with_key,
    {
        self.authenticated_with_key
    }

    /// How long the far end has been holding something unacknowledged, in
    /// milliseconds.
    pub fn unanswered_ms(&self) -> (r: u64)
        ensures
            r == self@.unanswered_ms,
    {
        self.unanswered_ms
    }

    /// The session is authenticated, with a public key or without.
    pub fn note_authenticated(&mut self, with_key: bool)
        requires
            old(self).wf(),
        ensures
            final(self).wf(),
            final(self)@ == (SessionView {
                authenticated_with_key: old(self)@.authenticated_with_key || with_key,
                ..old(self)@
            }),
    {
        if with_key {
            self.authenticated_with_key = true;
        }
    }

    /// The session reaches its request loop.
    pub fn enter_request_loop(&mut self)
        requires
            old(self).wf(),
        ensures
            final(self).wf(),
            final(self)@ == (SessionView { established: true, ..old(self)@ }),
    {
        self.established = true;
    }

    /// Notes how many bytes the far end has not taken delivery of. Where the
    /// platform gives no answer nothing is claimed.
    pub fn note_delivery(&mut self, outstanding: Option<u32>, now: u64)
        requires
            old(self).wf(),
        ensures
            final(self).wf(),
            final(self)@ == old(self)@.delivery_noted(outstanding, now),
    {
        let bytes: u32 = match outstanding {
            Some(bytes) => bytes,
            None => {
                return ;
            },
        };
        if bytes == 0 {
            self.undelivered_since = None;
        } else if self.undelivered_since.is_none() {
            self.undelivered_since = Some(now);
        }
        self.unanswered_ms = match self.undelivered_since {
            Some(since) => elapsed_since(now, since),
            None => 0,
        };
    }

    /// Whether to send an ignore packet now; if so the interval starts anew.
    /// With libssh2 none is sent.
    pub fn do_keepalive(&mut self, libssh: bool, now: u64) -> (send: bool)
        requires
            old(self).wf(),
        ensures
            final(self).wf(),
            send == (libssh && old(self)@.keepalive_due(now)),
            final(self)@ == if send {
                SessionView { last_keep_alive: now, ..old(self)@ }
            } else {
                old(self)@
            },
            (final(self)@, send) == old(self)@.kept_alive(libssh, now),
    {
        if !libssh {
            return false;
        }
        match self.keep_alive {
            Some(seconds) => {
                let waited: u128 = elapsed_since(now, self.last_keep_alive) as u128;
                if waited >= seconds as u128 * 1000 {
                    self.last_keep_alive = now;
                    true
                } else {
                    false
                }
            },
            None => false,
        }
    }

    /// How long the TCP handshake may take, in seconds.
    pub fn connect_timeout(&self) -> (seconds: u64)
        requires
            self.wf(),
        ensures
            seconds == connect_seconds(self@.config),
            seconds > 0,
    {
        match self.config.get("connecttimeout") {
            Some(v) => match parse_u64(v.as_str()) {
                Some(n) => if n == 0 {
                    10
                } else {
                    n
                },
                None => 10,
            },
            None => 10,
        }
    }

    /// Whether an address of the given family may be used.
    pub fn filter_sock_addr(&self, is_ipv4: bool) -> (r: bool)
        requires
            self.wf(),
        ensures
            r == family_allowed(self@.config, is_ipv4),
    {
        if self.config.has("addressfamily", "inet") {
            is_ipv4
        } else if self.config.has("addressfamily", "inet6") {
            !is_ipv4
        } else {
            true
        }
    }

    /// The first of the resolved addresses whose family may be used. Each is
    /// given by whether it is an IPv4 address.
    pub fn pick_address(&self, families: &Vec<bool>) -> (r: Option<usize>)
        requires
            self.wf(),
        ensures
            match r {
                Some(i) => i < families@.len() && family_allowed(self@.config, families@[i as int])
                    && forall|j: int|
                    0 <= j < i ==> !family_allowed(self@.config, #[trigger] families@[j]),
                None => forall|j: int|
                    0 <= j < families@.len() ==> !family_allowed(
                        self@.config,
                        #[trigger] families@[j],
                    ),
            },
    {
        let mut i: usize = 0;
        while i < families.len()
            invariant
                i <= families.len(),
                self.wf(),
                forall|j: int|
                    0 <= j < i ==> !family_allowed(self@.config, #[trigger] families@[j]),
            decreases families.len() - i,
        {
            if self.filter_sock_addr(families[i]) {
                return Some(i);
            }
            i = i + 1;
        }
        None
    }

    /// The agent to use: the configured one, or the one of the environment.
    pub fn identity_agent(&self, ssh_auth_sock: Option<String>) -> (r: Option<String>)
        requires
            self.wf(),
        ensures
            match r {
                Some(s) => Some(s@) == agent_path(self@.config, ssh_auth_sock),
                None => agent_path(self@.config, ssh_auth_sock) is None,
            },
    {
        match self.config.get("identityagent") {
            Some(s) => Some(s),
            None => ssh_auth_sock,
        }
    }

    /// Whether the agent is forwarded: the options ask for it and there is one.
    pub fn forwards_agent(&self, ssh_auth_sock: Option<String>) -> (r: bool)
        requires
            self.wf(),
        ensures
            r == agent_forwarded(self@.config, ssh_auth_sock),
    {
        self.config.has("forwardagent", "yes") && self.identity_agent(ssh_auth_sock).is_some()
    }

    /// What is said where the options ask for the agent to be forwarded and
    /// there is none.
    pub fn missing_agent(&self, ssh_auth_sock: Option<String>) -> (r: Option<&'static str>)
        requires
            self.wf(),
        ensures
            match r {
                Some(s) => s@ == "ForwardAgent is set to yes, but IdentityAgent is not set"@
                    && option_is(self@.config, "forwardagent"@, "yes"@) && agent_path(
                    self@.config,
                    ssh_auth_sock,
                ) is None,
                None => option_is(self@.config, "forwardagent"@, "yes"@) ==> agent_path(
                    self@.config,
                    ssh_auth_sock,
                ) is Some,
            },
    {
        if self.config.has("forwardagent", "yes") && self.identity_agent(ssh_auth_sock).is_none() {
            Some("ForwardAgent is set to yes, but IdentityAgent is not set")
        } else {
            None
        }
    }

    /// What the next tick has to attempt.
    pub fn tick_plan(&self) -> (plans: Vec<ChannelPlan>)
        requires
            self.wf(),
        ensures
            plans@ == self@.channels.map_values(|c: ChannelView| c.plan()),
    {
        self.channels.tick_plan()
    }

    /// Applies what came of a tick: bytes move, exit statuses are reported, and
    /// channels that nothing is attached to any more are dropped.
    pub fn tick_io(&mut self, outcomes: Vec<ChannelOutcome>) -> (r: TickResult)
        requires
            old(self).wf(),
            all_admit(old(self)@.channels, outcomes@),
        ensures
            final(self).wf(),
            final(self)@ == (SessionView {
                channels: survivors(old(self)@.channels, outcomes@),
                ..old(self)@
            }),
            r.exits@ == exit_notices(old(self)@.channels, outcomes@),
            r.moved == exists|i: int|
                0 <= i < old(self)@.channels.len() && (#[trigger] old(self)@.channels[i]).moved(
                    outcomes@[i],
                ),
    {
        let ghost before = self@.channels;
        let r = self.channels.tick_io(outcomes);
        proof {
            lemma_survivors_bounded(before, outcomes@, self.next_channel_id);
        }
        r
    }

    /// Whether there is an id left for another channel.
    pub fn has_channel_id(&self) -> (r: bool)
        ensures
            r == (self@.next_channel_id < usize::MAX),
    {
        self.next_channel_id < usize::MAX
    }

    /// Whether there is an id left for another file or directory.
    pub fn has_file_id(&self) -> (r: bool)
        ensures
            r == (self@.next_file_id < usize::MAX),
    {
        self.next_file_id < usize::MAX
    }

    /// The channels.
    pub fn channels(&self) -> (c: &Channels)
        requires
            self.wf(),
        ensures
            c@ == self@.channels,
            c.wf(),
    {
        &self.channels
    }

    /// Applies what came of serving one ready descriptor of the channel at place
    /// `i`. The result says that the channel is to be closed.
    pub fn apply_ready(&mut self, i: usize, fd_num: usize, outcome: ReadyOutcome) -> (close_channel:
        bool)
        requires
            old(self).wf(),
            i < old(self)@.channels.len(),
            old(self)@.channels[i as int].admits_ready(fd_num, outcome),
        ensures
            final(self).wf(),
            final(self)@ == (SessionView {
                channels: old(self)@.channels.update(
                    i as int,
                    old(self)@.channels[i as int].readied(fd_num, outcome),
                ),
                ..old(self)@
            }),
            close_channel == (outcome matches ReadyOutcome::Read(r) && (r is Eof || r is Failed)),
    {
        let close_channel = match outcome {
            ReadyOutcome::Read(r) => self.channels.stdin_filled(i, r),
            ReadyOutcome::Wrote(w) => {
                self.channels.output_drained(i, fd_num, w);
                false
            },
            ReadyOutcome::Closed => {
                self.channels.output_closed(i, fd_num);
                false
            },
        };
        assert forall|j: int| 0 <= j < self@.channels.len() implies (
        #[trigger] self@.channels[j]).channel_id < self@.next_channel_id by {
            assert(old(self)@.channels[j].channel_id < self@.next_channel_id);
        }
        close_channel
    }

    /// Decides about what the request queue held.
    pub fn dispatch_one_request(&mut self, received: Received) -> (d: Dispatch)
        requires
            old(self).wf(),
        ensures
            final(self).wf(),
            match received {
                Received::Closed => d is AllClientsClosed && final(self)@ == old(self)@,
                Received::Empty => d is Idle && final(self)@ == old(self)@,
                Received::Request(request) => {
                    &&& d == (Dispatch::Serve {
                        service: old(self)@.service(request),
                        more: !(request is Shutdown),
                    })
                    &&& final(self)@ == old(self)@.taken_up(request)
                },
            },
    {
        broadcast use vstd::std_specs::hash::group_hash_axioms;

        let request = match received {
            Received::Closed => {
                return Dispatch::AllClientsClosed;
            },
            Received::Empty => {
                return Dispatch::Idle;
            },
            Received::Request(request) => request,
        };
        let service = match request {
            SessionRequest::SessionDropped => {
                self.session_was_dropped = true;
                Service::Noted
            },
            SessionRequest::Shutdown => {
                self.shutdown_requested = true;
                Service::Noted
            },
            SessionRequest::File(_, id) => if self.files.contains(&id) {
                Service::Perform
            } else {
                Service::Refuse(RequestRefused::InvalidFileId)
            },
            SessionRequest::CloseFile(id) => {
                self.files.remove(&id);
                Service::Done
            },
            SessionRequest::CloseDir(id) => if self.dirs.remove(&id) {
                Service::Done
            } else {
                assert(self@.dirs == old(self)@.dirs.remove(id));
                Service::Refuse(RequestRefused::InvalidDirId)
            },
            SessionRequest::ReadOpenDir(id) => if self.dirs.contains(&id) {
                Service::Perform
            } else {
                Service::Refuse(RequestRefused::InvalidDirId)
            },
            SessionRequest::SignalChannel(id) => if self.channels.find(id).is_some() {
                Service::Perform
            } else {
                Service::Refuse(RequestRefused::InvalidChannel(id))
            },
            _ => Service::Perform,
        };
        assert(self@.files == old(self)@.taken_up(request).files);
        assert(self@.dirs == old(self)@.taken_up(request).dirs);
        Dispatch::Serve { service, more: request != SessionRequest::Shutdown }
    }

    /// A file was opened: it gets the next id.
    pub fn open_with_mode(&mut self) -> (id: FileId)
        requires
            old(self).wf(),
            old(self)@.next_file_id < usize::MAX,
        ensures
            final(self).wf(),
            id == old(self)@.next_file_id,
            final(self)@ == (SessionView {
                files: old(self)@.files.insert(id),
                next_file_id: (id + 1) as usize,
                ..old(self)@
            }),
    {
        broadcast use vstd::std_specs::hash::group_hash_axioms;

        let id: usize = self.next_file_id;
        self.next_file_id = self.next_file_id + 1;
        self.files.insert(id);
        id
    }

    /// A directory was opened: it gets the next id.
    pub fn open_dir(&mut self) -> (id: FileId)
        requires
            old(self).wf(),
            old(self)@.next_file_id < usize::MAX,
        ensures
            final(self).wf(),
            id == old(self)@.next_file_id,
            final(self)@ == (SessionView {
                dirs: old(self)@.dirs.insert(id),
                next_file_id: (id + 1) as usize,
                ..old(self)@
            }),
    {
        broadcast use vstd::std_specs::hash::group_hash_axioms;

        let id: usize = self.next_file_id;
        self.next_file_id = self.next_file_id + 1;
        self.dirs.insert(id);
        id
    }

    /// Adds a channel with the next id. Its streams start empty.
    pub fn add_channel(
        &mut self,
        exit: Option<u64>,
        stdin: Option<u64>,
        stdout: Option<u64>,
        stderr: Option<u64>,
    ) -> (id: ChannelId)
        requires
            old(self).wf(),
            old(self)@.next_channel_id < usize::MAX,
        ensures
            final(self).wf(),
            id == old(self)@.next_channel_id,
            final(self)@ == old(self)@.with_channel(exit, stdin, stdout, stderr),
    {
        let channel_id: usize = self.next_channel_id;
        self.next_channel_id = self.next_channel_id + 1;
        self.insert_channel(channel_id, exit, stdin, stdout, stderr);
        channel_id
    }

    /// The next channel id is spoken for, whatever becomes of the channel.
    pub(crate) fn reserve_channel_id(&mut self) -> (id: ChannelId)
        requires
            old(self).wf(),
            old(self)@.next_channel_id < usize::MAX,
        ensures
            final(self).wf(),
            id == old(self)@.next_channel_id,
            final(self)@ == (SessionView { next_channel_id: (id + 1) as usize, ..old(self)@ }),
            forall|i: int|
                0 <= i < final(self)@.channels.len() ==> (
                #[trigger] final(self)@.channels[i]).channel_id != id,
    {
        let id: usize = self.next_channel_id;
        self.next_channel_id = self.next_channel_id + 1;
        id
    }

    /// Adds a channel under an id that was reserved for it.
    pub(crate) fn insert_channel(
        &mut self,
        channel_id: ChannelId,
        exit: Option<u64>,
        stdin: Option<u64>,
        stdout: Option<u64>,
        stderr: Option<u64>,
    )
        requires
            old(self).wf_reserved(channel_id),
        ensures
            final(self).wf(),
            final(self)@ == (SessionView {
                channels: old(self)@.channels.push(
                    ChannelView {
                        channel_id,
                        exit,
                        exited: false,
                        stdin: DescriptorView::fresh(stdin),
                        stdout: DescriptorView::fresh(stdout),
                        stderr: DescriptorView::fresh(stderr),
                    },
                ),
                ..old(self)@
            }),
    {
        let info = ChannelInfo {
            channel_id,
            exit,
            exited: false,
            stdin: DescriptorState::new(stdin),
            stdout: DescriptorState::new(stdout),
            stderr: DescriptorState::new(stderr),
        };
        self.channels.insert(info);
    }

    /// The session is well formed and no channel has the id `id`, which was
    /// handed out.
    pub closed spec fn wf_reserved(&self, id: ChannelId) -> bool {
        &&& self.wf()
        &&& id < self.next_channel_id
        &&& forall|i: int|
            0 <= i < self.channels@.len() ==> (#[trigger] self.channels@[i]).channel_id != id
    }

    pub(crate) proof fn lemma_reserved(&self, id: ChannelId)
        requires
            self.wf(),
            id < self@.next_channel_id,
            forall|i: int|
                0 <= i < self@.channels.len() ==> (#[trigger] self@.channels[i]).channel_id != id,
        ensures
            self.wf_reserved(id),
    {
    }

    /// Whether the loop ends here, and how.
    pub fn ending(&self, connected: bool) -> (r: Option<LoopEnd>)
        requires
            self.wf(),
        ensures
            r == self@.ending(connected),
    {
        if self.shutdown_requested {
            Some(LoopEnd::Closed)
        } else if self.channels.is_empty() && self.session_was_dropped {
            Some(LoopEnd::Drained)
        } else if !connected {
            Some(LoopEnd::Lost)
        } else {
            None
        }
    }
}

/// Whether addresses of the family may be used: `inet` and `inet6` restrict
/// them, anything else does not.
pub open spec fn family_allowed(config: Map<Seq<char>, Seq<char>>, is_ipv4: bool) -> bool {
    if option_is(config, "addressfamily"@, "inet"@) {
        is_ipv4
    } else if option_is(config, "addressfamily"@, "inet6"@) {
        !is_ipv4
    } else {
        true
    }
}

/// Where the agent listens.
pub open spec fn agent_path(
    config: Map<Seq<char>, Seq<char>>,
    ssh_auth_sock: Option<String>,
) -> Option<Seq<char>> {
    if config.dom().contains("identityagent"@) {
        Some(config["identityagent"@])
    } else {
        match ssh_auth_sock {
            Some(s) => Some(s@),
            None => None,
        }
    }
}

pub open spec fn agent_forwarded(
    config: Map<Seq<char>, Seq<char>>,
    ssh_auth_sock: Option<String>,
) -> bool {
    option_is(config, "forwardagent"@, "yes"@) && agent_path(config, ssh_auth_sock) is Some
}

proof fn lemma_survivors_bounded(v: Seq<ChannelView>, o: Seq<ChannelOutcome>, bound: ChannelId)
    requires
        forall|i: int| 0 <= i < v.len() ==> (#[trigger] v[i]).channel_id < bound,
    ensures
        forall|i: int|
            0 <= i < survivors(v, o).len() ==> (#[trigger] survivors(v, o)[i]).channel_id < bound,
    decreases v.len(),
{
    if v.len() > 0 {
        assert forall|i: int| 0 <= i < v.drop_last().len() implies (
        #[trigger] v.drop_last()[i]).channel_id < bound by {
            assert(v.drop_last()[i] == v[i]);
        }
        lemma_survivors_bounded(v.drop_last(), o, bound);
        assert(v[v.len() - 1].channel_id < bound);
    }
}

/// A loop ends well only when its owner closed the connection or when nobody
/// needs it any more; a connection that was lost and a queue that is closed are
/// errors.
pub proof fn only_wanted_ends_are_good(s: SessionView, connected: bool, d: Dispatch)
    ensures
        s.ending(connected) matches Some(end) ==> (end.error_text() is None <==> (end is Closed
            || end is Drained)),
        s.ending(connected) == Some(LoopEnd::Lost) ==> !connected,
        d is AllClientsClosed ==> d.loop_end() is Some && d.loop_end()->0.error_text() is Some,
        !(d is AllClientsClosed) ==> d.loop_end() is None,
{
}

/// A session once established stays established, and one that a key has won
/// stays so, whatever happens to it.
pub proof fn establishment_is_lasting(
    s: SessionView,
    outstanding: Option<u32>,
    request: SessionRequest,
    now: u64,
)
    ensures
        s.delivery_noted(outstanding, now).established == s.established,
        s.taken_up(request).established == s.established,
        s.delivery_noted(outstanding, now).authenticated_with_key == s.authenticated_with_key,
        s.taken_up(request).authenticated_with_key == s.authenticated_with_key,
{
}

/// While bytes stay undelivered the clock is not restarted: the reader sees how
/// long the far end has been silent, which only grows.
pub proof fn silence_is_timed_from_its_start(
    s: SessionView,
    first: u32,
    second: u32,
    t0: u64,
    t1: u64,
)
    requires
        s.undelivered_since is None,
        first > 0,
        second > 0,
        t0 <= t1,
    ensures
        s.delivery_noted(Some(first), t0).delivery_noted(Some(second), t1).unanswered_ms == t1
            - t0,
        s.delivery_noted(Some(first), t0).delivery_noted(Some(0), t1).unanswered_ms == 0,
        s.delivery_noted(Some(first), t0).delivery_noted(None, t1)
            == s.delivery_noted(Some(first), t0),
{
}

/// A shutdown ends the loop as closed in the very turn it is taken up, whether
/// or not channels are open and whether or not the connection is still there.
pub proof fn shutdown_ends_the_loop(s: SessionView, connected: bool)
    ensures
        s.taken_up(SessionRequest::Shutdown).ending(connected) == Some(LoopEnd::Closed),
        s.service(SessionRequest::Shutdown) is Noted,
{
}

/// Dropping the handles does not cut a connection short that still has a
/// channel.
pub proof fn dropping_waits_for_the_channels(s: SessionView)
    requires
        !s.shutdown_requested,
    ensures
        s.channels.len() > 0 ==> s.taken_up(SessionRequest::SessionDropped).ending(true) is None,
        s.channels.len() == 0 ==> s.taken_up(SessionRequest::SessionDropped).ending(true) == Some(
            LoopEnd::Drained,
        ),
{
}

/// A file that was closed is gone: every later call on it is refused, and
/// closing it again is no error. A directory that was closed cannot be closed
/// again.
pub proof fn closed_ids_are_refused(s: SessionView, id: FileId, call: FileCall)
    requires
        s.wf(),
    ensures
        s.taken_up(SessionRequest::CloseFile(id)).service(SessionRequest::File(call, id))
            == Service::Refuse(RequestRefused::InvalidFileId),
        s.taken_up(SessionRequest::CloseFile(id)).service(SessionRequest::CloseFile(id)) is Done,
        s.taken_up(SessionRequest::CloseDir(id)).service(SessionRequest::CloseDir(id))
            == Service::Refuse(RequestRefused::InvalidDirId),
        s.taken_up(SessionRequest::CloseFile(id)).wf(),
        s.taken_up(SessionRequest::CloseDir(id)).wf(),
{
}

/// How a request is served depends on whether what it is about is there: a call
/// on a file needs the file to be open, reading on in a directory or closing it
/// needs the directory, a signal needs the channel, and what is not there is
/// named in the refusal. Everything else is carried out, but for the two notices
/// that the connection is finished.
pub proof fn requests_need_what_they_are_about(s: SessionView, request: SessionRequest)
    ensures
        ({
            let r = s.service(request);
            let known = exists|i: int|
                0 <= i < s.channels.len() && (#[trigger] s.channels[i]).channel_id
                    == request->SignalChannel_0;
            &&& r is Noted <==> request is SessionDropped || request is Shutdown
            &&& request is File ==> (r is Perform <==> s.files.contains(request->File_1))
            &&& request is File && !(r is Perform) ==> r == Service::Refuse(
                RequestRefused::InvalidFileId,
            )
            &&& request is ReadOpenDir ==> (r is Perform <==> s.dirs.contains(
                request->ReadOpenDir_0,
            ))
            &&& request is CloseDir ==> (r is Done <==> s.dirs.contains(request->CloseDir_0))
            &&& (request is ReadOpenDir && !(r is Perform)) || (request is CloseDir && !(
            r is Done)) ==> r == Service::Refuse(RequestRefused::InvalidDirId)
            &&& request is CloseFile ==> r is Done
            &&& request is SignalChannel ==> (r is Perform <==> known)
            &&& request is SignalChannel && !known ==> r == Service::Refuse(
                RequestRefused::InvalidChannel(request->SignalChannel_0),
            )
            &&& request is NewPty || request is ResizePty || request is Exec || request is Sftp
                ==> r is Perform
        }),
{
}

/// Taking a request up changes nothing but what the request says: a file or a
/// directory that is closed is gone and no other is, and the two notices are
/// noted for good.
pub proof fn taking_a_request_up_changes_little(
    s: SessionView,
    request: SessionRequest,
    id: FileId,
)
    ensures
        ({
            let after = s.taken_up(request);
            &&& after.files.contains(id) <==> s.files.contains(id) && request
                != SessionRequest::CloseFile(id)
            &&& after.dirs.contains(id) <==> s.dirs.contains(id) && request
                != SessionRequest::CloseDir(id)
            &&& after.session_was_dropped <==> s.session_was_dropped || request is SessionDropped
            &&& after.shutdown_requested <==> s.shutdown_requested || request is Shutdown
            &&& after == (SessionView {
                files: after.files,
                dirs: after.dirs,
                session_was_dropped: after.session_was_dropped,
                shutdown_requested: after.shutdown_requested,
                ..s
            })
        }),
{
}

/// The loop goes on while it is connected, nobody closed the connection, and
/// there is a handle or a channel left; and what ended it is told in the order
/// closed, drained, lost.
pub proof fn the_loop_ends_for_a_reason(s: SessionView, connected: bool)
    ensures
        ({
            let drained = s.session_was_dropped && s.channels == Seq::<ChannelView>::empty();
            &&& s.ending(connected) is None <==> connected && !s.shutdown_requested && !drained
            &&& s.ending(connected) == Some(LoopEnd::Closed) <==> s.shutdown_requested
            &&& s.ending(connected) == Some(LoopEnd::Drained) <==> !s.shutdown_requested && drained
            &&& s.ending(connected) == Some(LoopEnd::Lost) <==> !s.shutdown_requested && !drained
                && !connected
        }),
{
    assert(s.channels.len() == 0 ==> s.channels == Seq::<ChannelView>::empty());
}

/// A channel that is added stands at the end under an id that no channel has and
/// none will get again, with each descriptor in its own place and nothing in its
/// streams.
pub proof fn an_added_channel_is_fresh(
    s: SessionView,
    exit: Option<u64>,
    stdin: Option<u64>,
    stdout: Option<u64>,
    stderr: Option<u64>,
)
    requires
        s.wf(),
        s.next_channel_id < usize::MAX,
    ensures
        ({
            let after = s.with_channel(exit, stdin, stdout, stderr);
            let c = after.channels.last();
            &&& after.channels.len() == s.channels.len() + 1
            &&& after.channels.drop_last() == s.channels
            &&& c.channel_id == s.next_channel_id
            &&& after.next_channel_id == s.next_channel_id + 1
            &&& c.stdin.fd == stdin && c.stdout.fd == stdout && c.stderr.fd == stderr
            &&& c.stdin.buf.len() == 0 && c.stdout.buf.len() == 0 && c.stderr.buf.len() == 0
            &&& c.exit == exit && !c.exited
            &&& forall|i: int|
                0 <= i < s.channels.len() ==> (#[trigger] s.channels[i]).channel_id
                    != c.channel_id
            &&& after.wf()
        }),
{
    let after = s.with_channel(exit, stdin, stdout, stderr);
    assert forall|i: int, j: int| 0 <= i < j < after.channels.len() implies (
    #[trigger] after.channels[i]).channel_id != (#[trigger] after.channels[j]).channel_id by {
        assert(after.channels[i] == s.channels[i]);
        if j < s.channels.len() {
            assert(after.channels[j] == s.channels[j]);
        }
    }
    assert forall|i: int| 0 <= i < after.channels.len() implies (
    #[trigger] after.channels[i]).channel_id < after.next_channel_id by {
        if i < s.channels.len() {
            assert(after.channels[i] == s.channels[i]);
        }
    }
    assert forall|i: int| 0 <= i < after.channels.len() implies (
    #[trigger] after.channels[i]).wf() by {
        if i < s.channels.len() {
            assert(after.channels[i] == s.channels[i]);
        }
    }
}

/// The session after the far end's account was taken at each of `notes`: what
/// was outstanding, and when.
pub open spec fn after_notes(s: SessionView, notes: Seq<(Option<u32>, u64)>) -> SessionView
    decreases notes.len(),
{
    if notes.len() == 0 {
        s
    } else {
        after_notes(s, notes.drop_last()).delivery_noted(notes.last().0, notes.last().1)
    }
}

/// However often the far end's account is taken, its silence is timed from the
/// first account since which something was outstanding in every one that gave an
/// answer; and an account of nothing outstanding ends it.
pub proof fn silence_is_timed_over_any_number_of_accounts(
    s: SessionView,
    first: u32,
    start: u64,
    notes: Seq<(Option<u32>, u64)>,
)
    requires
        s.undelivered_since is None,
        first > 0,
        forall|i: int| 0 <= i < notes.len() ==> (#[trigger] notes[i]).0 != Some(0u32),
    ensures
        ({
            let after = after_notes(s.delivery_noted(Some(first), start), notes);
            let last = notes.last();
            &&& after.undelivered_since == Some(start)
            &&& notes.len() > 0 && last.0 is Some && last.1 >= start ==> after.unanswered_ms
                == last.1 - start
            &&& after.delivery_noted(Some(0), last.1).undelivered_since is None
            &&& after.delivery_noted(Some(0), last.1).unanswered_ms == 0
        }),
    decreases notes.len(),
{
    if notes.len() > 0 {
        assert(notes[notes.len() - 1].0 != Some(0u32));
        assert forall|i: int| 0 <= i < notes.drop_last().len() implies (
        #[trigger] notes.drop_last()[i]).0 != Some(0u32) by {
            assert(notes.drop_last()[i] == notes[i]);
        }
        silence_is_timed_over_any_number_of_accounts(s, first, start, notes.drop_last());
    }
}

/// A keepalive is due once its interval has passed since the last one, and not
/// before; without an interval none ever is.
pub proof fn keepalives_keep_their_distance(s: SessionView, now: u64)
    ensures
        s.keep_alive is None ==> !s.keepalive_due(now),
        s.keep_alive is Some && s.keep_alive->0 > 0 ==> (s.keepalive_due(now) <==> now
            >= s.last_keep_alive + 1000 * s.keep_alive->0),
{
}

/// An interval or a limit that is spelled as a positive number is that number of
/// seconds. Where there is none, or it is nought, no keepalive is sent and a
/// connection attempt may take ten seconds.
pub proof fn spelled_seconds_are_taken(config: Map<Seq<char>, Seq<char>>, n: u64)
    ensures
        config.dom().contains("serveraliveinterval"@) && config["serveraliveinterval"@] == decimal(
            n as nat,
        ) ==> keep_alive_seconds(config) == if n > 0 {
            Some(n)
        } else {
            None
        },
        !config.dom().contains("serveraliveinterval"@) ==> keep_alive_seconds(config) is None,
        config.dom().contains("connecttimeout"@) && config["connecttimeout"@] == decimal(n as nat)
            ==> connect_seconds(config) == if n > 0 {
            n
        } else {
            10u64
        },
        !config.dom().contains("connecttimeout"@) ==> connect_seconds(config) == 10,
{
    decimal_is_read_back(n as nat);
}

/// `inet` allows IPv4 addresses only and `inet6` the others only; without either
/// both are allowed.
pub proof fn families_are_restricted_as_said(config: Map<Seq<char>, Seq<char>>)
    ensures
        option_is(config, "addressfamily"@, "inet"@) ==> family_allowed(config, true)
            && !family_allowed(config, false),
        option_is(config, "addressfamily"@, "inet6"@) ==> family_allowed(config, false)
            && !family_allowed(config, true),
        !option_is(config, "addressfamily"@, "inet"@) && !option_is(
            config,
            "addressfamily"@,
            "inet6"@,
        ) ==> family_allowed(config, true) && family_allowed(config, false),
{
    reveal_strlit("inet");
    reveal_strlit("inet6");
    assert("inet"@.len() != "inet6"@.len());
}

/// The agent that the options name is the one that is used, and otherwise that of
/// the environment; it is forwarded exactly where the options say so and there is
/// one.
pub proof fn the_named_agent_is_used(
    config: Map<Seq<char>, Seq<char>>,
    ssh_auth_sock: Option<String>,
)
    ensures
        config.dom().contains("identityagent"@) ==> agent_path(config, ssh_auth_sock) == Some(
            config["identityagent"@],
        ),
        !config.dom().contains("identityagent"@) && ssh_auth_sock is Some ==> agent_path(
            config,
            ssh_auth_sock,
        ) == Some(ssh_auth_sock->0@),
        !config.dom().contains("identityagent"@) && ssh_auth_sock is None ==> agent_path(
            config,
            ssh_auth_sock,
        ) is None,
        agent_forwarded(config, ssh_auth_sock) <==> config.dom().contains("forwardagent"@)
            && config["forwardagent"@] == "yes"@ && (config.dom().contains("identityagent"@)
            || ssh_auth_sock is Some),
{
}

/// A ready descriptor is served in its own stream: what is read from the local
/// end joins what goes to the remote side, at its back; what is written leaves an
/// output stream at its front; and closing one leaves what it holds, and the
/// other streams, alone.
pub proof fn ready_descriptors_serve_their_own_stream(
    c: ChannelView,
    fd_num: usize,
    outcome: ReadyOutcome,
)
    requires
        c.wf(),
        c.admits_ready(fd_num, outcome),
    ensures
        ({
            let after = c.readied(fd_num, outcome);
            &&& fd_num != 0 ==> after.stdin == c.stdin
            &&& fd_num != 1 ==> after.stdout == c.stdout
            &&& fd_num != 2 ==> after.stderr == c.stderr
            &&& after.channel_id == c.channel_id && after.exit == c.exit && after.exited
                == c.exited
            &&& outcome matches ReadyOutcome::Read(ReadOutcome::Data(d)) ==> after.stdin.buf
                == c.stdin.buf + d@ && after.stdin.fd == c.stdin.fd
            &&& outcome is Read && (outcome->Read_0 is Eof || outcome->Read_0 is Failed)
                ==> after.stdin.fd is None && after.stdin.buf == c.stdin.buf
            &&& outcome matches ReadyOutcome::Wrote(WriteOutcome::Wrote(n)) ==> c.output(
                fd_num,
            ).buf == c.output(fd_num).buf.take(n as int) + after.output(fd_num).buf
            &&& outcome matches ReadyOutcome::Wrote(WriteOutcome::Failed) ==> after.output(
                fd_num,
            ).fd is None
            &&& outcome is Closed && fd_num == 1 ==> after.stdout.fd is None && after.stdout.buf
                == c.stdout.buf
            &&& outcome is Closed && fd_num == 2 ==> after.stderr.fd is None && after.stderr.buf
                == c.stderr.buf
            &&& outcome == ReadyOutcome::Read(ReadOutcome::WouldBlock) || outcome
                == ReadyOutcome::Wrote(WriteOutcome::WouldBlock) ==> after == c
        }),
{
}

/// What is opened is known by its own id from then on, which nothing open has:
/// a file that was opened can be used and a directory can be read, and neither
/// passes for the other.
pub proof fn opened_ids_are_new(s: SessionView, call: FileCall)
    requires
        s.wf(),
        s.next_file_id < usize::MAX,
    ensures
        ({
            let id = s.next_file_id;
            let file = SessionView {
                files: s.files.insert(id),
                next_file_id: (id + 1) as usize,
                ..s
            };
            let dir = SessionView { dirs: s.dirs.insert(id), next_file_id: (id + 1) as usize, ..s };
            &&& !s.files.contains(id) && !s.dirs.contains(id)
            &&& file.wf() && dir.wf()
            &&& file.service(SessionRequest::File(call, id)) is Perform
            &&& file.service(SessionRequest::ReadOpenDir(id)) is Refuse
            &&& dir.service(SessionRequest::ReadOpenDir(id)) is Perform
            &&& dir.service(SessionRequest::File(call, id)) is Refuse
        }),
{
}

/// A keepalive is sent when it is due, and the next one is not due until its
/// interval has passed again. With libssh2 none is sent and nothing is noted, and
/// nothing but the time of the last one ever changes.
pub proof fn keepalives_start_their_interval_anew(s: SessionView, libssh: bool, now: u64, then: u64)
    requires
        s.keep_alive is Some ==> s.keep_alive->0 > 0,
    ensures
        ({
            let (after, sent) = s.kept_alive(libssh, now);
            &&& sent <==> libssh && s.keep_alive is Some && now >= s.last_keep_alive + 1000
                * s.keep_alive->0
            &&& sent ==> (after.keepalive_due(then) <==> then >= now + 1000 * s.keep_alive->0)
            &&& !sent ==> after == s
            &&& after == (SessionView { last_keep_alive: after.last_keep_alive, ..s })
        }),
{
}

/// Each request has a name of its own, but for the two ways of reading a
/// directory.
pub proof fn requests_are_called_by_their_names(id: usize, reply: bool)
    ensures
        request_label(SessionRequest::NewPty) == "NewPty"@,
        request_label(SessionRequest::ResizePty { reply }) == "resize_pty"@,
        request_label(SessionRequest::Exec) == "exec"@,
        request_label(SessionRequest::Sftp(SftpCall::OpenWithMode)) == "OpenWithMode"@,
        request_label(SessionRequest::Sftp(SftpCall::OpenDir)) == "OpenDir"@,
        request_label(SessionRequest::Sftp(SftpCall::ReadDir)) == "read_dir"@,
        request_label(SessionRequest::Sftp(SftpCall::CreateDir)) == "create_dir"@,
        request_label(SessionRequest::Sftp(SftpCall::RemoveDir)) == "remove_dir"@,
        request_label(SessionRequest::Sftp(SftpCall::Metadata)) == "metadata"@,
        request_label(SessionRequest::Sftp(SftpCall::SymlinkMetadata)) == "symlink_metadata"@,
        request_label(SessionRequest::Sftp(SftpCall::SetMetadata)) == "set_metadata"@,
        request_label(SessionRequest::Sftp(SftpCall::Symlink)) == "symlink"@,
        request_label(SessionRequest::Sftp(SftpCall::ReadLink)) == "read_link"@,
        request_label(SessionRequest::Sftp(SftpCall::Canonicalize)) == "canonicalize"@,
        request_label(SessionRequest::Sftp(SftpCall::Rename)) == "rename"@,
        request_label(SessionRequest::Sftp(SftpCall::RemoveFile)) == "remove_file"@,
        request_label(SessionRequest::File(FileCall::Write, id)) == "write_file"@,
        request_label(SessionRequest::File(FileCall::Read, id)) == "read_file"@,
        request_label(SessionRequest::File(FileCall::Flush, id)) == "flush_file"@,
        request_label(SessionRequest::File(FileCall::SetMetadata, id)) == "set_metadata_file"@,
        request_label(SessionRequest::File(FileCall::Metadata, id)) == "metadata_file"@,
        request_label(SessionRequest::File(FileCall::Fsync, id)) == "fsync"@,
        request_label(SessionRequest::CloseFile(id)) == "close_file"@,
        request_label(SessionRequest::CloseDir(id)) == "close_dir"@,
        request_label(SessionRequest::ReadOpenDir(id)) == "read_dir"@,
        request_label(SessionRequest::SignalChannel(id)) == "signal_channel"@,
        request_label(SessionRequest::SessionDropped) == "session_dropped"@,
        request_label(SessionRequest::Shutdown) == "shutdown"@,
{
}

/// A moment that has passed is as long ago as the clock has moved since, and one
/// that is yet to come counts as now.
pub proof fn time_does_not_run_backwards(now: u64, since: u64)
    ensures
        now >= since ==> elapsed(now, since) == now - since,
        now < since ==> elapsed(now, since) == 0,
{
}

} // verus!
