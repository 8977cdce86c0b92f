//! Authentication: which method is tried when, what the user is asked, and
//! where an answer may go.
//!
//! Two conversations are described, one per SSH library. Each is a machine
//! that is told what came of the last call and names the next one.

use crate::config_map::ConfigMap;
use crate::text::{join3, separate, separated, texts};
use vstd::prelude::*;

verus! {

/// The option saying that the embedder is holding this user's password, so
/// authentication should offer it before the public keys.
///
/// A hint, not a secret: the password itself never reaches the options.
pub const TERMOB_PREFER_PASSWORD_OPTION: &'static str = "termob_prefer_password";

/// One thing the user is asked for.
#[derive(Debug)]
pub struct AuthenticationPrompt {
    pub prompt: String,
    pub echo: bool,
}

impl View for AuthenticationPrompt {
    type V = (Seq<char>, bool);

    open spec fn view(&self) -> (Seq<char>, bool) {
        (self.prompt@, self.echo)
    }
}

/// Who composed an authentication prompt.
///
/// Some prompts are written on this machine and some are relayed from the
/// remote host, which chooses their text outright; only the origin tells them
/// apart.
#[derive(Debug, Clone, Copy, PartialEq, Eq, Structural)]
pub enum AuthPromptOrigin {
    /// Composed on this machine (key passphrase, local public key callback).
    /// A secret answered here never leaves the client.
    Local,
    /// Relayed from the remote host (keyboard-interactive, password).
    /// Anything answered here is sent to the server.
    Server,
}

/// A question put to the user.
#[derive(Debug)]
pub struct AuthenticationEvent {
    pub username: String,
    pub instructions: String,
    pub prompts: Vec<AuthenticationPrompt>,
    pub origin: AuthPromptOrigin,
}

/// What an [`AuthenticationEvent`] says.
pub struct AuthenticationEventView {
    pub username: Seq<char>,
    pub instructions: Seq<char>,
    pub prompts: Seq<(Seq<char>, bool)>,
    pub origin: AuthPromptOrigin,
}

pub open spec fn prompt_views(v: Seq<AuthenticationPrompt>) -> Seq<(Seq<char>, bool)> {
    v.map_values(|p: AuthenticationPrompt| p@)
}

impl View for AuthenticationEvent {
    type V = AuthenticationEventView;

    open spec fn view(&self) -> AuthenticationEventView {
        AuthenticationEventView {
            username: self.username@,
            instructions: self.instructions@,
            prompts: prompt_views(self.prompts@),
            origin: self.origin,
        }
    }
}

/// The questions that authentication asks.
#[derive(Debug)]
pub enum Question {
    /// The password, without saying whose.
    Password,
    /// The password of `user` at `host`.
    PasswordFor { user: String, host: String },
    /// The passphrase that decrypts a key file of this machine.
    KeyPassphrase { file: String, user: String, host: String },
    /// What the SSH library asks while it handles a key of this machine.
    KeyCallback { prompt: String, echo: bool, identity: Option<String> },
    /// What the server asks, in its own words.
    Relayed { username: String, instructions: String, prompts: Vec<AuthenticationPrompt> },
}

impl Question {
    /// Only what concerns a key of this machine is asked locally.
    pub open spec fn origin(self) -> AuthPromptOrigin {
        if self is KeyPassphrase || self is KeyCallback {
            AuthPromptOrigin::Local
        } else {
            AuthPromptOrigin::Server
        }
    }

    pub open spec fn event_view(self) -> AuthenticationEventView {
        let empty = Seq::<char>::empty();
        match self {
            Question::Password => AuthenticationEventView {
                username: empty,
                instructions: empty,
                prompts: seq![("Password: "@, false)],
                origin: self.origin(),
            },
            Question::PasswordFor { user, host } => AuthenticationEventView {
                username: user@,
                instructions: empty,
                prompts: seq![("Password for "@ + user@ + "@"@ + host@ + ": "@, false)],
                origin: self.origin(),
            },
            Question::KeyPassphrase { file, user, host } => AuthenticationEventView {
                username: empty,
                instructions: empty,
                prompts: seq![
                    (
                        "Passphrase to decrypt "@ + file@ + " for "@ + user@ + "@"@ + host@
                            + ":\n> "@,
                        false,
                    ),
                ],
                origin: self.origin(),
            },
            Question::KeyCallback { prompt, echo, identity } => AuthenticationEventView {
                username: empty,
                instructions: empty,
                prompts: seq![
                    (
                        match identity {
                            Some(ident) => prompt@ + " ("@ + ident@ + "): "@,
                            None => prompt@,
                        },
                        echo,
                    ),
                ],
                origin: self.origin(),
            },
            Question::Relayed { username, instructions, prompts } => AuthenticationEventView {
                username: username@,
                instructions: instructions@,
                prompts: prompt_views(prompts@),
                origin: self.origin(),
            },
        }
    }

    /// The question as it is put to the user.
    pub fn into_event(self) -> (e: AuthenticationEvent)
        ensures
            e@ == self.event_view(),
    {
        let ghost expected = self.event_view();
        let e = match self {
            Question::Password => one_prompt(
                String::new(),
                "Password: ".to_owned(),
                false,
                AuthPromptOrigin::Server,
            ),
            Question::PasswordFor { user, host } => {
                let mut prompt = join3("Password for ", user.as_str(), "@");
                prompt.append(host.as_str());
                prompt.append(": ");
                one_prompt(user, prompt, false, AuthPromptOrigin::Server)
            },
            Question::KeyPassphrase { file, user, host } => {
                let mut prompt = join3("Passphrase to decrypt ", file.as_str(), " for ");
                prompt.append(user.as_str());
                prompt.append("@");
                prompt.append(host.as_str());
                prompt.append(":\n> ");
                one_prompt(String::new(), prompt, false, AuthPromptOrigin::Local)
            },
            Question::KeyCallback { prompt, echo, identity } => {
                let mut text = prompt;
                match identity {
                    Some(ident) => {
                        text.append(" (");
                        text.append(ident.as_str());
                        text.append("): ");
                    },
                    None => {},
                }
                one_prompt(String::new(), text, echo, AuthPromptOrigin::Local)
            },
            Question::Relayed { username, instructions, prompts } => AuthenticationEvent {
                username,
                instructions,
                prompts,
                origin: AuthPromptOrigin::Server,
            },
        };
        assert(e@.prompts == expected.prompts);
        e
    }
}

/// A question with one prompt and no instructions.
fn one_prompt(username: String, prompt: String, echo: bool, origin: AuthPromptOrigin) -> (e:
    AuthenticationEvent)
    ensures
        e@ == (AuthenticationEventView {
            username: username@,
            instructions: Seq::<char>::empty(),
            prompts: seq![(prompt@, echo)],
            origin,
        }),
{
    let mut prompts: Vec<AuthenticationPrompt> = Vec::new();
    prompts.push(AuthenticationPrompt { prompt, echo });
    let e = AuthenticationEvent { username, instructions: String::new(), prompts, origin };
    assert(e@.prompts == seq![(prompt@, echo)]);
    e
}

/// Why authentication ended without success.
#[derive(Debug)]
pub enum AuthFailure {
    /// A call into the SSH library failed, with its error text.
    Call(String),
    /// The user could not be asked, with the error text.
    SendQuestion(String),
    /// No answer came from the user, with the error text.
    WaitAnswers(String),
    UserCancelled,
    /// An answer to an interactive question that no step follows.
    InteractiveStatus(AuthStatus),
    /// The last method was refused.
    PasswordStatus(AuthStatus),
    /// No method is left to try.
    Unhandled {
        methods: AuthMethods,
        password: Option<AuthStatus>,
        public_key: Option<AuthStatus>,
    },
}

impl AuthFailure {
    pub open spec fn text(self) -> Seq<char> {
        match self {
            AuthFailure::Call(e) => e@,
            AuthFailure::SendQuestion(_) => "sending Authenticate request to user"@,
            AuthFailure::WaitAnswers(_) => "waiting for authentication answers from user"@,
            AuthFailure::UserCancelled => "user cancelled authentication"@,
            AuthFailure::InteractiveStatus(status) => "interactive auth status: "@
                + status.label(),
            AuthFailure::PasswordStatus(status) => "password auth status: "@ + status.label(),
            AuthFailure::Unhandled { methods, password, public_key } =>
                "unhandled auth case; methods="@ + methods.label() + ", status="@ + status_text(
                password,
                public_key,
            ),
        }
    }

    /// What is said of it, apart from the error text behind it.
    pub fn message(&self) -> (s: String)
        ensures
            s@ == self.text(),
    {
        match self {
            AuthFailure::Call(e) => e.clone(),
            AuthFailure::SendQuestion(_) => "sending Authenticate request to user".to_owned(),
            AuthFailure::WaitAnswers(_) => {
                "waiting for authentication answers from user".to_owned()
            },
            AuthFailure::UserCancelled => "user cancelled authentication".to_owned(),
            AuthFailure::InteractiveStatus(status) => {
                let mut s = "interactive auth status: ".to_owned();
                s.append(status.name());
                s
            },
            AuthFailure::PasswordStatus(status) => {
                let mut s = "password auth status: ".to_owned();
                s.append(status.name());
                s
            },
            AuthFailure::Unhandled { methods, password, public_key } => {
                let mut s = join3(
                    "unhandled auth case; methods=",
                    methods.name().as_str(),
                    ", status=",
                );
                s.append(show_status(*password, *public_key).as_str());
                s
            },
        }
    }
}

/// How the user's side of a question failed.
#[derive(Debug)]
pub enum AskFailure {
    Send(String),
    Wait(String),
}

pub open spec fn ask_failure(f: AskFailure) -> AuthFailure {
    match f {
        AskFailure::Send(e) => AuthFailure::SendQuestion(e),
        AskFailure::Wait(e) => AuthFailure::WaitAnswers(e),
    }
}

fn ask_failed(f: AskFailure) -> (r: AuthFailure)
    ensures
        r == ask_failure(f),
{
    match f {
        AskFailure::Send(e) => AuthFailure::SendQuestion(e),
        AskFailure::Wait(e) => AuthFailure::WaitAnswers(e),
    }
}

/// What one authentication call came to.
#[derive(Debug, Clone, Copy, PartialEq, Eq, Structural)]
pub enum AuthStatus {
    Success,
    Denied,
    Partial,
    Info,
    Again,
}

impl AuthStatus {
    pub open spec fn label(self) -> Seq<char> {
        match self {
            AuthStatus::Success => "Success"@,
            AuthStatus::Denied => "Denied"@,
            AuthStatus::Partial => "Partial"@,
            AuthStatus::Info => "Info"@,
            AuthStatus::Again => "Again"@,
        }
    }

    /// What it is called.
    pub fn name(self) -> (s: &'static str)
        ensures
            s@ == self.label(),
    {
        match self {
            AuthStatus::Success => "Success",
            AuthStatus::Denied => "Denied",
            AuthStatus::Partial => "Partial",
            AuthStatus::Info => "Info",
            AuthStatus::Again => "Again",
        }
    }
}

/// The methods a server offers.
#[derive(Debug, Clone, Copy, PartialEq, Eq, Structural)]
pub struct AuthMethods {
    pub none: bool,
    pub password: bool,
    pub public_key: bool,
    pub host_based: bool,
    pub interactive: bool,
    pub gssapi_mic: bool,
}

pub open spec fn with_name(names: Seq<Seq<char>>, present: bool, name: Seq<char>) -> Seq<
    Seq<char>,
> {
    if present {
        names.push(name)
    } else {
        names
    }
}

fn add_name(names: &mut Vec<String>, present: bool, name: &str)
    ensures
        texts(final(names)@) == with_name(texts(old(names)@), present, name@),
{
    if present {
        names.push(name.to_owned());
    }
}

impl AuthMethods {
    /// The methods that are offered, by their names.
    pub open spec fn names(self) -> Seq<Seq<char>> {
        let a = with_name(Seq::empty(), self.none, "NONE"@);
        let b = with_name(a, self.password, "PASSWORD"@);
        let c = with_name(b, self.public_key, "PUBLIC_KEY"@);
        let d = with_name(c, self.host_based, "HOST_BASED"@);
        let e = with_name(d, self.interactive, "INTERACTIVE"@);
        with_name(e, self.gssapi_mic, "GSSAPI_MIC"@)
    }

    pub open spec fn label(self) -> Seq<char> {
        if self.names().len() == 0 {
            "(empty)"@
        } else {
            separated(self.names(), " | "@)
        }
    }

    /// The methods as they are shown.
    pub fn name(self) -> (s: String)
        ensures
            s@ == self.label(),
    {
        let mut names: Vec<String> = Vec::new();
        assert(texts(names@) == Seq::<Seq<char>>::empty());
        add_name(&mut names, self.none, "NONE");
        add_name(&mut names, self.password, "PASSWORD");
        add_name(&mut names, self.public_key, "PUBLIC_KEY");
        add_name(&mut names, self.host_based, "HOST_BASED");
        add_name(&mut names, self.interactive, "INTERACTIVE");
        add_name(&mut names, self.gssapi_mic, "GSSAPI_MIC");
        assert(texts(names@).len() == names@.len());
        if names.len() == 0 {
            "(empty)".to_owned()
        } else {
            separate(&names, " | ")
        }
    }
}

/// What the methods that were tried came to, as it is shown.
pub open spec fn status_text(password: Option<AuthStatus>, public_key: Option<AuthStatus>) -> Seq<
    char,
> {
    let tried = match password {
        Some(status) => seq!["PASSWORD: "@ + status.label()],
        None => Seq::<Seq<char>>::empty(),
    };
    let all = match public_key {
        Some(status) => tried.push("PUBLIC_KEY: "@ + status.label()),
        None => tried,
    };
    "{"@ + separated(all, ", "@) + "}"@
}

fn show_status(password: Option<AuthStatus>, public_key: Option<AuthStatus>) -> (s: String)
    ensures
        s@ == status_text(password, public_key),
{
    let mut tried: Vec<String> = Vec::new();
    if let Some(status) = password {
        let mut s = "PASSWORD: ".to_owned();
        s.append(status.name());
        tried.push(s);
        assert(texts(tried@) == seq!["PASSWORD: "@ + status.label()]);
    }
    let ghost before = texts(tried@);
    assert(password is None ==> before == Seq::<Seq<char>>::empty());
    if let Some(status) = public_key {
        let mut s = "PUBLIC_KEY: ".to_owned();
        s.append(status.name());
        tried.push(s);
        assert(texts(tried@) == before.push("PUBLIC_KEY: "@ + status.label()));
    }
    join3("{", separate(&tried, ", ").as_str(), "}")
}

/// Where the libssh conversation stands: what was asked for last.
#[derive(Debug, Clone, Copy, PartialEq, Eq, Structural)]
pub enum LibsshStage {
    /// Trying without credentials.
    TryingNone,
    Listing,
    /// The password is asked for ahead of the keys.
    EarlyAsk,
    EarlyPassword,
    PublicKey,
    Interactive,
    InteractiveInfo,
    InteractiveAsk,
    InteractiveAnswers,
    PasswordAsk,
    Password,
    Finished,
}

/// The next thing to do.
#[derive(Debug)]
pub enum LibsshAction {
    TryNone,
    ListMethods,
    Ask(Question),
    OfferPassword(String),
    TryPublicKey,
    TryInteractive,
    /// Read the server's interactive questions and the user name.
    FetchInteractive,
    SetAnswers(Vec<String>),
    /// The session is authenticated, with a public key or without.
    Done { with_key: bool },
    Fail(AuthFailure),
}

/// What came of the last action.
#[derive(Debug)]
pub enum LibsshEvent {
    Status(AuthStatus),
    Methods(AuthMethods),
    Info { username: String, instructions: String, prompts: Vec<AuthenticationPrompt> },
    Answers(Vec<String>),
    AnswersSet,
    CallFailed(String),
    AskFailed(AskFailure),
}

/// The conversation with libssh.
#[derive(Debug, Clone, Copy, PartialEq, Eq, Structural)]
pub struct LibsshAuth {
    pub prefer_password: bool,
    pub password_offered: bool,
    pub methods: AuthMethods,
    pub password_status: Option<AuthStatus>,
    pub public_key_status: Option<AuthStatus>,
    pub stage: LibsshStage,
}

/// The methods of one round, in the order they are tried.
#[derive(Debug, Clone, Copy, PartialEq, Eq, Structural)]
pub enum Rung {
    PublicKey,
    Interactive,
    Password,
}

impl LibsshAuth {
    pub open spec fn at(self, stage: LibsshStage) -> LibsshAuth {
        LibsshAuth { stage, ..self }
    }

    /// The first offered method from `rung` on; with none left the attempt
    /// fails.
    pub open spec fn descend(self, rung: Rung) -> (LibsshAuth, LibsshAction) {
        if rung is PublicKey && self.methods.public_key {
            (self.at(LibsshStage::PublicKey), LibsshAction::TryPublicKey)
        } else if !(rung is Password) && self.methods.interactive {
            (self.at(LibsshStage::Interactive), LibsshAction::TryInteractive)
        } else if self.methods.password {
            (self.at(LibsshStage::PasswordAsk), LibsshAction::Ask(Question::Password))
        } else {
            (
                self.at(LibsshStage::Finished),
                LibsshAction::Fail(
                    AuthFailure::Unhandled {
                        methods: self.methods,
                        password: self.password_status,
                        public_key: self.public_key_status,
                    },
                ),
            )
        }
    }

    pub open spec fn finish(self, action: LibsshAction) -> (LibsshAuth, LibsshAction) {
        (self.at(LibsshStage::Finished), action)
    }

    pub open spec fn relist(self) -> (LibsshAuth, LibsshAction) {
        (self.at(LibsshStage::Listing), LibsshAction::ListMethods)
    }

    /// What a status of the call just made leads to.
    pub open spec fn on_status(self, status: AuthStatus) -> (LibsshAuth, LibsshAction) {
        if status is Success {
            self.finish(LibsshAction::Done { with_key: self.stage is PublicKey })
        } else {
            match self.stage {
                LibsshStage::TryingNone => self.relist(),
                LibsshStage::EarlyPassword => if status is Partial {
                    self.relist()
                } else {
                    (LibsshAuth { password_status: Some(status), ..self }).descend(Rung::PublicKey)
                },
                LibsshStage::PublicKey => if status is Partial {
                    self.relist()
                } else {
                    (LibsshAuth { public_key_status: Some(status), ..self }).descend(
                        Rung::Interactive,
                    )
                },
                LibsshStage::Interactive => match status {
                    AuthStatus::Info => (
                        self.at(LibsshStage::InteractiveInfo),
                        LibsshAction::FetchInteractive,
                    ),
                    AuthStatus::Partial => (self, LibsshAction::TryInteractive),
                    AuthStatus::Denied => self.descend(Rung::Password),
                    _ => self.finish(LibsshAction::Fail(AuthFailure::InteractiveStatus(status))),
                },
                _ => if status is Partial {
                    self.relist()
                } else {
                    self.finish(LibsshAction::Fail(AuthFailure::PasswordStatus(status)))
                },
            }
        }
    }

    /// What the user's answers lead to.
    pub open spec fn on_answers(self, answers: Vec<String>) -> (LibsshAuth, LibsshAction) {
        match self.stage {
            LibsshStage::EarlyAsk => if answers@.len() == 0 {
                self.descend(Rung::PublicKey)
            } else {
                (self.at(LibsshStage::EarlyPassword), LibsshAction::OfferPassword(answers@[0]))
            },
            LibsshStage::InteractiveAsk => (
                self.at(LibsshStage::InteractiveAnswers),
                LibsshAction::SetAnswers(answers),
            ),
            _ => (self.at(LibsshStage::Password), LibsshAction::OfferPassword(answers@[0])),
        }
    }

    /// What a list of methods leads to: a password the embedder holds goes
    /// first, once.
    pub open spec fn on_methods(self, methods: AuthMethods) -> (LibsshAuth, LibsshAction) {
        let round = LibsshAuth {
            methods,
            password_status: None,
            public_key_status: None,
            ..self
        };
        if self.prefer_password && !self.password_offered && methods.password {
            (
                LibsshAuth { password_offered: true, stage: LibsshStage::EarlyAsk, ..round },
                LibsshAction::Ask(Question::Password),
            )
        } else {
            round.descend(Rung::PublicKey)
        }
    }

    /// The conversation's next state and action.
    pub open spec fn next(self, event: LibsshEvent) -> (LibsshAuth, LibsshAction) {
        match event {
            LibsshEvent::Status(status) => self.on_status(status),
            LibsshEvent::Methods(methods) => self.on_methods(methods),
            LibsshEvent::Info { username, instructions, prompts } => (
                self.at(LibsshStage::InteractiveAsk),
                LibsshAction::Ask(Question::Relayed { username, instructions, prompts }),
            ),
            LibsshEvent::Answers(answers) => self.on_answers(answers),
            LibsshEvent::AnswersSet => (
                self.at(LibsshStage::Interactive),
                LibsshAction::TryInteractive,
            ),
            LibsshEvent::CallFailed(e) => self.finish(LibsshAction::Fail(AuthFailure::Call(e))),
            LibsshEvent::AskFailed(f) => self.finish(LibsshAction::Fail(ask_failure(f))),
        }
    }

    /// The events that can follow the last action. The last question of a round
    /// has to be answered: there is no way on without an answer to it.
    pub open spec fn expects(self, event: LibsshEvent) -> bool {
        let stage = self.stage;
        match event {
            LibsshEvent::Status(_) => stage is TryingNone || stage is EarlyPassword
                || stage is PublicKey || stage is Interactive || stage is Password,
            LibsshEvent::Methods(_) => stage is Listing,
            LibsshEvent::Info { .. } => stage is InteractiveInfo,
            LibsshEvent::Answers(answers) => stage is EarlyAsk || stage is InteractiveAsk || (
            stage is PasswordAsk && answers@.len() > 0),
            LibsshEvent::AnswersSet => stage is InteractiveAnswers,
            LibsshEvent::CallFailed(_) => !(stage is EarlyAsk || stage is InteractiveAsk
                || stage is PasswordAsk || stage is Finished),
            LibsshEvent::AskFailed(_) => stage is EarlyAsk || stage is InteractiveAsk,
        }
    }

    /// Begins a conversation. The first action is to try without credentials.
    pub fn start(config: &ConfigMap) -> (r: (LibsshAuth, LibsshAction))
        requires
            config.wf(),
        ensures
            r.0 == LibsshAuth::initial(
                config.is_set_to(TERMOB_PREFER_PASSWORD_OPTION@, "yes"@),
            ),
            r.1 is TryNone,
    {
        let prefer_password = config.has(TERMOB_PREFER_PASSWORD_OPTION, "yes");
        let none = AuthMethods {
            none: false,
            password: false,
            public_key: false,
            host_based: false,
            interactive: false,
            gssapi_mic: false,
        };
        (
            LibsshAuth {
                prefer_password,
                password_offered: false,
                methods: none,
                password_status: None,
                public_key_status: None,
                stage: LibsshStage::TryingNone,
            },
            LibsshAction::TryNone,
        )
    }

    pub open spec fn initial(prefer_password: bool) -> LibsshAuth {
        LibsshAuth {
            prefer_password,
            password_offered: false,
            methods: AuthMethods {
                none: false,
                password: false,
                public_key: false,
                host_based: false,
                interactive: false,
                gssapi_mic: false,
            },
            password_status: None,
            public_key_status: None,
            stage: LibsshStage::TryingNone,
        }
    }

    fn take_rung(&mut self, rung: Rung) -> (action: LibsshAction)
        ensures
            (*final(self), action) == old(self).descend(rung),
    {
        if rung == Rung::PublicKey && self.methods.public_key {
            self.stage = LibsshStage::PublicKey;
            LibsshAction::TryPublicKey
        } else if rung != Rung::Password && self.methods.interactive {
            self.stage = LibsshStage::Interactive;
            LibsshAction::TryInteractive
        } else if self.methods.password {
            self.stage = LibsshStage::PasswordAsk;
            LibsshAction::Ask(Question::Password)
        } else {
            self.stage = LibsshStage::Finished;
            LibsshAction::Fail(
                AuthFailure::Unhandled {
                    methods: self.methods,
                    password: self.password_status,
                    public_key: self.public_key_status,
                },
            )
        }
    }

    fn take_status(&mut self, status: AuthStatus) -> (action: LibsshAction)
        requires
            old(self).expects(LibsshEvent::Status(status)),
        ensures
            (*final(self), action) == old(self).on_status(status),
    {
        if status == AuthStatus::Success {
            let with_key = self.stage == LibsshStage::PublicKey;
            self.stage = LibsshStage::Finished;
            return LibsshAction::Done { with_key };
        }
        let again = status == AuthStatus::Partial;
        match self.stage {
            LibsshStage::EarlyPassword if !again => {
                self.password_status = Some(status);
                self.take_rung(Rung::PublicKey)
            },
            LibsshStage::PublicKey if !again => {
                self.public_key_status = Some(status);
                self.take_rung(Rung::Interactive)
            },
            LibsshStage::Interactive => match status {
                AuthStatus::Info => {
                    self.stage = LibsshStage::InteractiveInfo;
                    LibsshAction::FetchInteractive
                },
                AuthStatus::Partial => LibsshAction::TryInteractive,
                AuthStatus::Denied => self.take_rung(Rung::Password),
                _ => {
                    self.stage = LibsshStage::Finished;
                    LibsshAction::Fail(AuthFailure::InteractiveStatus(status))
                },
            },
            LibsshStage::Password if !again => {
                self.stage = LibsshStage::Finished;
                LibsshAction::Fail(AuthFailure::PasswordStatus(status))
            },
            _ => {
                self.stage = LibsshStage::Listing;
                LibsshAction::ListMethods
            },
        }
    }

    fn take_answers(&mut self, answers: Vec<String>) -> (action: LibsshAction)
        requires
            old(self).expects(LibsshEvent::Answers(answers)),
        ensures
            (*final(self), action) == old(self).on_answers(answers),
    {
        if self.stage == LibsshStage::InteractiveAsk {
            self.stage = LibsshStage::InteractiveAnswers;
            return LibsshAction::SetAnswers(answers);
        }
        if answers.len() == 0 {
            return self.take_rung(Rung::PublicKey);
        }
        self.stage = if self.stage == LibsshStage::EarlyAsk {
            LibsshStage::EarlyPassword
        } else {
            LibsshStage::Password
        };
        let mut answers = answers;
        LibsshAction::OfferPassword(answers.remove(0))
    }

    fn take_methods(&mut self, methods: AuthMethods) -> (action: LibsshAction)
        ensures
            (*final(self), action) == old(self).on_methods(methods),
    {
        self.methods = methods;
        self.password_status = None;
        self.public_key_status = None;
        if self.prefer_password && !self.password_offered && methods.password {
            self.password_offered = true;
            self.stage = LibsshStage::EarlyAsk;
            LibsshAction::Ask(Question::Password)
        } else {
            self.take_rung(Rung::PublicKey)
        }
    }

    /// Takes what came of the last action and names the next one.
    pub fn step(&mut self, event: LibsshEvent) -> (action: LibsshAction)
        requires
            old(self).expects(event),
        ensures
            (*final(self), action) == old(self).next(event),
    {
        match event {
            LibsshEvent::Status(status) => self.take_status(status),
            LibsshEvent::Methods(methods) => self.take_methods(methods),
            LibsshEvent::Info { username, instructions, prompts } => {
                self.stage = LibsshStage::InteractiveAsk;
                LibsshAction::Ask(Question::Relayed { username, instructions, prompts })
            },
            LibsshEvent::Answers(answers) => self.take_answers(answers),
            LibsshEvent::AnswersSet => {
                self.stage = LibsshStage::Interactive;
                LibsshAction::TryInteractive
            },
            LibsshEvent::CallFailed(e) => {
                self.stage = LibsshStage::Finished;
                LibsshAction::Fail(AuthFailure::Call(e))
            },
            LibsshEvent::AskFailed(f) => {
                self.stage = LibsshStage::Finished;
                LibsshAction::Fail(ask_failed(f))
            },
        }
    }
}

/// The state of the libssh conversation after `events`.
pub open spec fn libssh_after(start: LibsshAuth, events: Seq<LibsshEvent>) -> LibsshAuth
    decreases events.len(),
{
    if events.len() == 0 {
        start
    } else {
        libssh_after(start, events.drop_last()).next(events.last()).0
    }
}

/// Whether each of `events` could follow the action before it.
pub open spec fn libssh_admits(start: LibsshAuth, events: Seq<LibsshEvent>) -> bool
    decreases events.len(),
{
    events.len() == 0 || (libssh_admits(start, events.drop_last()) && libssh_after(
        start,
        events.drop_last(),
    ).expects(events.last()))
}

/// Whether the event at `i` has the password asked for ahead of the keys.
pub open spec fn asks_early(start: LibsshAuth, events: Seq<LibsshEvent>, i: int) -> bool {
    libssh_after(start, events.take(i)).next(events[i]).0.stage is EarlyAsk
}

proof fn lemma_libssh_run(prefer: bool, events: Seq<LibsshEvent>)
    requires
        libssh_admits(LibsshAuth::initial(prefer), events),
    ensures
        ({
            let s = libssh_after(LibsshAuth::initial(prefer), events);
            &&& s.prefer_password == prefer
            &&& s.stage is EarlyAsk ==> s.password_offered
            &&& s.password_offered ==> prefer
        }),
    decreases events.len(),
{
    if events.len() > 0 {
        lemma_libssh_run(prefer, events.drop_last());
    }
}

proof fn lemma_libssh_prefix(start: LibsshAuth, events: Seq<LibsshEvent>, i: int)
    requires
        0 <= i <= events.len(),
        libssh_admits(start, events),
    ensures
        libssh_admits(start, events.take(i)),
        i < events.len() ==> libssh_after(start, events.take(i)).expects(events[i]),
        i < events.len() ==> libssh_after(start, events.take(i + 1)) == libssh_after(
            start,
            events.take(i),
        ).next(events[i]).0,
    decreases events.len(),
{
    if i < events.len() {
        assert(events.take(i + 1).drop_last() == events.take(i));
        assert(events.take(i + 1).last() == events[i]);
    }
    if i == events.len() {
        assert(events.take(i) == events);
    } else {
        lemma_libssh_prefix(start, events.drop_last(), i);
        assert(events.drop_last().take(i) == events.take(i));
        if i == events.len() - 1 {
            assert(events.take(i) == events.drop_last());
        } else {
            assert(events.drop_last()[i] == events[i]);
        }
    }
}

proof fn lemma_offered_stays(start: LibsshAuth, events: Seq<LibsshEvent>, i: int, j: int)
    requires
        0 <= i <= j <= events.len(),
        libssh_admits(start, events),
        libssh_after(start, events.take(i)).password_offered,
    ensures
        libssh_after(start, events.take(j)).password_offered,
    decreases j - i,
{
    if i < j {
        lemma_libssh_prefix(start, events, i);
        lemma_offered_stays(start, events, i + 1, j);
    }
}

/// A password held by the embedder is asked for ahead of the keys at most once
/// in a conversation, and never where the option does not say so.
pub proof fn password_goes_first_at_most_once(
    prefer: bool,
    events: Seq<LibsshEvent>,
    i: int,
    j: int,
)
    requires
        libssh_admits(LibsshAuth::initial(prefer), events),
        0 <= i < j < events.len(),
    ensures
        !(asks_early(LibsshAuth::initial(prefer), events, i) && asks_early(
            LibsshAuth::initial(prefer),
            events,
            j,
        )),
        asks_early(LibsshAuth::initial(prefer), events, j) ==> prefer,
{
    let start = LibsshAuth::initial(prefer);
    lemma_libssh_prefix(start, events, i);
    lemma_libssh_prefix(start, events, j);
    lemma_libssh_prefix(start, events, j + 1);
    if asks_early(start, events, i) {
        lemma_libssh_prefix(start, events, i + 1);
        lemma_libssh_run(prefer, events.take(i + 1));
        lemma_offered_stays(start, events, i + 1, j);
    }
    lemma_libssh_run(prefer, events.take(j + 1));
}

/// A refusal of the password that went first changes nothing about the round
/// that follows: it goes on as if the password had not been offered, with the
/// refusal noted.
pub proof fn refused_early_password_falls_through(s: LibsshAuth, status: AuthStatus)
    requires
        s.stage is EarlyPassword,
        !(status is Success),
        !(status is Partial),
    ensures
        s.next(LibsshEvent::Status(status)) == (LibsshAuth {
            password_status: Some(status),
            ..s
        }).descend(Rung::PublicKey),
        s.methods.public_key ==> s.next(LibsshEvent::Status(status)).1 is TryPublicKey,
{
}

/// Authentication is reported as done exactly when a call reports success, and
/// as won by a key exactly when that call offered a public key.
pub proof fn libssh_done_means_success(s: LibsshAuth, event: LibsshEvent)
    requires
        s.expects(event),
    ensures
        s.next(event).1 is Done <==> event == LibsshEvent::Status(AuthStatus::Success),
        s.next(event).1 matches LibsshAction::Done { with_key } ==> with_key
            == s.stage is PublicKey,
{
}

/// Whatever this conversation asks the user may be sent to the server, and is
/// marked so; and only an answer to such a question is ever sent.
pub proof fn libssh_asks_for_the_server(s: LibsshAuth, event: LibsshEvent)
    requires
        s.expects(event),
    ensures
        s.next(event).1 matches LibsshAction::Ask(q) ==> q.origin() is Server,
        (s.next(event).1 is OfferPassword || s.next(event).1 is SetAnswers)
            ==> event is Answers,
{
}

/// A refusal is followed by the next method that the server offers, in the order
/// public key, keyboard-interactive, password. Where none is left the attempt
/// fails, naming what was offered and what the keys came to.
pub proof fn a_refusal_is_followed_by_the_next_method(s: LibsshAuth, status: AuthStatus)
    requires
        !(status is Success),
        !(status is Partial),
    ensures
        ({
            let (after, action) = s.next(LibsshEvent::Status(status));
            let m = s.methods;
            let past_keys = s.stage is PublicKey;
            let past_questions = s.stage is Interactive && status is Denied;
            &&& past_keys && m.interactive ==> action is TryInteractive
            &&& past_keys && !m.interactive && m.password ==> action == LibsshAction::Ask(
                Question::Password,
            )
            &&& past_questions && m.password ==> action == LibsshAction::Ask(Question::Password)
            &&& past_keys && !m.interactive && !m.password ==> action == LibsshAction::Fail(
                AuthFailure::Unhandled {
                    methods: m,
                    password: s.password_status,
                    public_key: Some(status),
                },
            )
            &&& past_questions && !m.password ==> action == LibsshAction::Fail(
                AuthFailure::Unhandled {
                    methods: m,
                    password: s.password_status,
                    public_key: s.public_key_status,
                },
            )
            &&& past_keys ==> after.public_key_status == Some(status) && after.password_status
                == s.password_status
            &&& past_keys || past_questions ==> after.methods == m && after.prefer_password
                == s.prefer_password && after.password_offered == s.password_offered
        }),
{
}

/// A round begins with the first method that the server offers, in the same
/// order, except that a password that the embedder holds is asked for first
/// where the server takes one and it has not been asked for so yet. Without an
/// answer, or with the answer refused, the round begins as if it had not been.
pub proof fn a_round_begins_with_the_first_method(
    s: LibsshAuth,
    m: AuthMethods,
    answers: Vec<String>,
    status: AuthStatus,
)
    requires
        s.stage is Listing,
        !(status is Success),
        !(status is Partial),
    ensures
        ({
            let (round, action) = s.next(LibsshEvent::Methods(m));
            let early = s.prefer_password && !s.password_offered && m.password;
            let unanswered = round.next(LibsshEvent::Answers(answers)).1;
            let refused = round.next(LibsshEvent::Answers(answers)).0.next(
                LibsshEvent::Status(status),
            ).1;
            let first = if !early {
                action
            } else if answers@.len() == 0 {
                unanswered
            } else {
                refused
            };
            &&& early ==> action == LibsshAction::Ask(Question::Password)
            &&& early ==> round.password_offered
            &&& early && answers@.len() > 0 ==> unanswered == LibsshAction::OfferPassword(
                answers@[0],
            )
            &&& round.methods == m
            &&& m.public_key ==> first is TryPublicKey
            &&& !m.public_key && m.interactive ==> first is TryInteractive
            &&& !m.public_key && !m.interactive && m.password ==> first == LibsshAction::Ask(
                Question::Password,
            )
            &&& !m.public_key && !m.interactive && !m.password ==> first == LibsshAction::Fail(
                AuthFailure::Unhandled { methods: m, password: None, public_key: None },
            )
        }),
{
}

/// Where a method succeeds in part, or trying without credentials does not
/// succeed, the server is asked anew for what it offers; keyboard-interactive is
/// taken up again instead, and so it is after answers.
pub proof fn partial_success_asks_what_is_next(s: LibsshAuth, status: AuthStatus)
    requires
        s.expects(LibsshEvent::Status(status)),
    ensures
        ({
            let action = s.next(LibsshEvent::Status(status)).1;
            &&& action is ListMethods <==> (s.stage is TryingNone && !(status is Success)) || (
            status is Partial && !(s.stage is Interactive))
            &&& s.stage is Interactive ==> (action is TryInteractive <==> status is Partial)
            &&& action is FetchInteractive <==> s.stage is Interactive && status is Info
            &&& action == LibsshAction::Fail(AuthFailure::InteractiveStatus(status))
                <==> s.stage is Interactive && status is Again
            &&& action == LibsshAction::Fail(AuthFailure::PasswordStatus(status))
                <==> s.stage is Password && !(status is Success || status is Partial)
            &&& action is ListMethods ==> s.next(LibsshEvent::Status(status)).0.password_offered
                == s.password_offered && s.next(LibsshEvent::Status(status)).0.prefer_password
                == s.prefer_password
        }),
{
}

/// The server's questions are put in its own words, and the answers go back to
/// it as they were given, all of them and in their order, upon which
/// keyboard-interactive is taken up again.
pub proof fn answers_go_back_as_given(
    s: LibsshAuth,
    username: String,
    instructions: String,
    prompts: Vec<AuthenticationPrompt>,
    answers: Vec<String>,
)
    requires
        s.stage is InteractiveInfo,
    ensures
        ({
            let asked = s.next(LibsshEvent::Info { username, instructions, prompts });
            let answered = asked.0.next(LibsshEvent::Answers(answers));
            let set = answered.0.next(LibsshEvent::AnswersSet);
            &&& asked.1 == LibsshAction::Ask(
                Question::Relayed { username, instructions, prompts },
            )
            &&& asked.0.expects(LibsshEvent::Answers(answers))
            &&& answered.1 == LibsshAction::SetAnswers(answers)
            &&& answered.0.expects(LibsshEvent::AnswersSet)
            &&& set.1 is TryInteractive
            &&& set.0 == (LibsshAuth { stage: LibsshStage::Interactive, ..s })
        }),
{
}

/// The password that is offered is the first answer to the question for it.
pub proof fn the_first_answer_is_the_password(s: LibsshAuth, answers: Vec<String>)
    requires
        s.stage is EarlyAsk || s.stage is PasswordAsk,
        answers@.len() > 0,
    ensures
        s.expects(LibsshEvent::Answers(answers)),
        s.next(LibsshEvent::Answers(answers)).1 == LibsshAction::OfferPassword(answers@[0]),
        s.next(LibsshEvent::Answers(answers)).0.expects(LibsshEvent::Status(AuthStatus::Denied)),
{
}

/// An error ends the attempt, and is named as what failed: a call into the SSH
/// library, putting a question to the user, or waiting for the answers.
pub proof fn errors_end_the_attempt(s: LibsshAuth, e: String)
    ensures
        s.next(LibsshEvent::CallFailed(e)).1 == LibsshAction::Fail(AuthFailure::Call(e)),
        s.next(LibsshEvent::AskFailed(AskFailure::Send(e))).1 == LibsshAction::Fail(
            AuthFailure::SendQuestion(e),
        ),
        s.next(LibsshEvent::AskFailed(AskFailure::Wait(e))).1 == LibsshAction::Fail(
            AuthFailure::WaitAnswers(e),
        ),
{
}

/// Each action is followed by word of its own outcome: a call by its status, a
/// question by its answers, and the end of the attempt by nothing.
pub proof fn each_libssh_action_has_its_outcomes(
    s: LibsshAuth,
    event: LibsshEvent,
    then: LibsshEvent,
)
    requires
        s.expects(event),
    ensures
        ({
            let (after, action) = s.next(event);
            match action {
                LibsshAction::TryNone => false,
                LibsshAction::ListMethods => after.expects(then) <==> then is Methods
                    || then is CallFailed,
                LibsshAction::Ask(q) => (after.expects(then) ==> then is Answers
                    || then is AskFailed) && (then is Answers && then->Answers_0@.len() > 0
                    ==> after.expects(then)) && (q is Relayed || after.stage is EarlyAsk
                    ==> (after.expects(then) <==> then is Answers || then is AskFailed)),
                LibsshAction::OfferPassword(_) => after.expects(then) <==> then is Status
                    || then is CallFailed,
                LibsshAction::TryPublicKey => after.expects(then) <==> then is Status
                    || then is CallFailed,
                LibsshAction::TryInteractive => after.expects(then) <==> then is Status
                    || then is CallFailed,
                LibsshAction::FetchInteractive => after.expects(then) <==> then is Info
                    || then is CallFailed,
                LibsshAction::SetAnswers(_) => after.expects(then) <==> then is AnswersSet
                    || then is CallFailed,
                LibsshAction::Done { .. } => !after.expects(then),
                LibsshAction::Fail(_) => !after.expects(then),
            }
        }),
{
}

/// What the conversation does about the last of `events`.
pub open spec fn libssh_action(start: LibsshAuth, events: Seq<LibsshEvent>) -> LibsshAction {
    libssh_after(start, events.drop_last()).next(events.last()).1
}

/// The methods that the server offered last.
pub open spec fn round_methods(events: Seq<LibsshEvent>) -> Option<AuthMethods>
    decreases events.len(),
{
    if events.len() == 0 {
        None
    } else if events.last() is Methods {
        Some(events.last()->Methods_0)
    } else {
        round_methods(events.drop_last())
    }
}

/// Whether the public keys were tried since the server last said what it offers.
pub open spec fn tried_keys(start: LibsshAuth, events: Seq<LibsshEvent>) -> bool
    decreases events.len(),
{
    events.len() > 0 && (libssh_action(start, events) is TryPublicKey || (
    !(events.last() is Methods) && tried_keys(start, events.drop_last())))
}

/// Whether keyboard-interactive was tried since the server last said what it
/// offers.
pub open spec fn tried_questions(start: LibsshAuth, events: Seq<LibsshEvent>) -> bool
    decreases events.len(),
{
    events.len() > 0 && (libssh_action(start, events) is TryInteractive || (
    !(events.last() is Methods) && tried_questions(start, events.drop_last())))
}

proof fn lemma_libssh_round(prefer: bool, events: Seq<LibsshEvent>)
    requires
        libssh_admits(LibsshAuth::initial(prefer), events),
    ensures
        ({
            let start = LibsshAuth::initial(prefer);
            let s = libssh_after(start, events);
            let m = round_methods(events)->0;
            let keys = tried_keys(start, events);
            let questions = tried_questions(start, events);
            let begun = round_methods(events) is Some;
            &&& begun ==> s.methods == m
            &&& !(s.stage is TryingNone || s.stage is Listing || s.stage is Finished) ==> begun
            &&& s.stage is EarlyAsk || s.stage is EarlyPassword ==> !keys && !questions
            &&& s.stage is PublicKey ==> m.public_key && keys && !questions
            &&& s.stage is Interactive || s.stage is InteractiveInfo || s.stage is InteractiveAsk
                || s.stage is InteractiveAnswers ==> m.interactive && questions
            &&& s.stage is Interactive || s.stage is InteractiveInfo || s.stage is InteractiveAsk
                || s.stage is InteractiveAnswers ==> keys == m.public_key
            &&& s.stage is PasswordAsk || s.stage is Password ==> m.password
            &&& s.stage is PasswordAsk || s.stage is Password ==> keys == m.public_key
                && questions == m.interactive
        }),
    decreases events.len(),
{
    if events.len() > 0 {
        lemma_libssh_round(prefer, events.drop_last());
    }
}

/// Over a whole conversation the methods of a round are tried in their order,
/// each only where the server offers it: the keys before keyboard-interactive,
/// and both before the password is asked for in its turn. The attempt fails for
/// want of a method only once every method on offer in the round was tried.
pub proof fn methods_are_tried_in_their_order(prefer: bool, events: Seq<LibsshEvent>)
    requires
        libssh_admits(LibsshAuth::initial(prefer), events),
        events.len() > 0,
    ensures
        ({
            let start = LibsshAuth::initial(prefer);
            let action = libssh_action(start, events);
            let m = round_methods(events)->0;
            let begun = round_methods(events) is Some;
            let keys = tried_keys(start, events);
            let questions = tried_questions(start, events);
            let early = asks_early(start, events, events.len() - 1);
            &&& action is TryPublicKey ==> begun && m.public_key && !questions
            &&& action is TryInteractive ==> begun && m.interactive && keys == m.public_key
            &&& action == LibsshAction::Ask(Question::Password) ==> begun && m.password
            &&& action == LibsshAction::Ask(Question::Password) && !early ==> keys
                == m.public_key && questions == m.interactive
            &&& action is Fail && action->Fail_0 is Unhandled ==> begun && !m.password && keys
                == m.public_key && questions == m.interactive && action->Fail_0->methods == m
        }),
{
    let start = LibsshAuth::initial(prefer);
    lemma_libssh_round(prefer, events);
    lemma_libssh_round(prefer, events.drop_last());
    assert(events.take(events.len() - 1) == events.drop_last());
}

/// A method is named exactly where it is offered, and nothing else is named.
pub proof fn offered_methods_are_named(m: AuthMethods)
    ensures
        m.names().contains("PASSWORD"@) <==> m.password,
        m.names().contains("PUBLIC_KEY"@) <==> m.public_key,
        m.names().contains("INTERACTIVE"@) <==> m.interactive,
        m.names().contains("NONE"@) <==> m.none,
        m.names().contains("HOST_BASED"@) <==> m.host_based,
        m.names().contains("GSSAPI_MIC"@) <==> m.gssapi_mic,
        m.names().no_duplicates(),
{
    reveal_strlit("PASSWORD");
    reveal_strlit("PUBLIC_KEY");
    reveal_strlit("INTERACTIVE");
    reveal_strlit("NONE");
    reveal_strlit("HOST_BASED");
    reveal_strlit("GSSAPI_MIC");
    assert("PASSWORD"@[1] != "PUBLIC_KEY"@[1]);
    assert("NONE"@[0] == 'N' && "HOST_BASED"@[0] == 'H' && "INTERACTIVE"@[0] == 'I'
        && "GSSAPI_MIC"@[0] == 'G' && "PASSWORD"@[0] == 'P' && "PUBLIC_KEY"@[0] == 'P');
    let a = with_name(Seq::empty(), m.none, "NONE"@);
    let b = with_name(a, m.password, "PASSWORD"@);
    let c = with_name(b, m.public_key, "PUBLIC_KEY"@);
    let d = with_name(c, m.host_based, "HOST_BASED"@);
    let e = with_name(d, m.interactive, "INTERACTIVE"@);
    lemma_with_name(Seq::empty(), m.none, "NONE"@);
    lemma_with_name(a, m.password, "PASSWORD"@);
    lemma_with_name(b, m.public_key, "PUBLIC_KEY"@);
    lemma_with_name(c, m.host_based, "HOST_BASED"@);
    lemma_with_name(d, m.interactive, "INTERACTIVE"@);
    lemma_with_name(e, m.gssapi_mic, "GSSAPI_MIC"@);
}

proof fn lemma_with_name(names: Seq<Seq<char>>, present: bool, name: Seq<char>)
    requires
        names.no_duplicates(),
        !names.contains(name),
    ensures
        with_name(names, present, name).no_duplicates(),
        forall|x: Seq<char>| #[trigger]
            with_name(names, present, name).contains(x) <==> names.contains(x) || (present && x
                == name),
{
    if present {
        let all = names.push(name);
        assert forall|x: Seq<char>| #[trigger] all.contains(x) <==> names.contains(x) || x
            == name by {
            if names.contains(x) {
                assert(all[names.index_of(x)] == x);
            }
            if x == name {
                assert(all[names.len() as int] == x);
            }
            if all.contains(x) && x != name {
                assert(names[all.index_of(x)] == x);
            }
        }
    }
}

/// What the server asks is put to the user as it came: the same name, the same
/// instructions, and every prompt with its own text and whether its answer is
/// shown.
pub proof fn relayed_questions_are_unchanged(
    username: String,
    instructions: String,
    prompts: Vec<AuthenticationPrompt>,
)
    ensures
        ({
            let e = (Question::Relayed { username, instructions, prompts }).event_view();
            &&& e.username == username@
            &&& e.instructions == instructions@
            &&& e.prompts.len() == prompts@.len()
            &&& forall|i: int|
                0 <= i < prompts@.len() ==> (#[trigger] e.prompts[i]) == (
                    prompts@[i].prompt@,
                    prompts@[i].echo,
                )
            &&& e.origin is Server
        }),
{
}

/// A secret is asked for by one prompt, which says what for and does not show
/// what is typed. The question for a password of somebody says whose and where,
/// that for a passphrase of which file, and whatever concerns a key of this
/// machine stays on it.
pub proof fn secrets_are_asked_for_by_name(file: String, user: String, host: String)
    ensures
        ({
            let any = Question::Password.event_view();
            let login = (Question::PasswordFor { user, host }).event_view();
            let key = (Question::KeyPassphrase { file, user, host }).event_view();
            &&& any.prompts == seq![("Password: "@, false)]
            &&& any.username.len() == 0 && any.origin is Server
            &&& login.prompts == seq![("Password for "@ + user@ + "@"@ + host@ + ": "@, false)]
            &&& login.username == user@ && login.origin is Server
            &&& key.prompts == seq![
                (
                    "Passphrase to decrypt "@ + file@ + " for "@ + user@ + "@"@ + host@ + ":\n> "@,
                    false,
                ),
            ]
            &&& key.username.len() == 0 && key.origin is Local
            &&& any.instructions.len() == 0 && login.instructions.len() == 0
                && key.instructions.len() == 0
        }),
{
}

/// What the SSH library asks about a key is asked in its words, with the key
/// after them where it names one; whether the answer is shown is up to it, and
/// the answer stays on this machine.
pub proof fn key_callbacks_are_asked_locally(prompt: String, echo: bool, identity: Option<String>)
    ensures
        ({
            let e = (Question::KeyCallback { prompt, echo, identity }).event_view();
            &&& identity is None ==> e.prompts == seq![(prompt@, echo)]
            &&& identity is Some ==> e.prompts == seq![
                (prompt@ + " ("@ + identity->0@ + "): "@, echo),
            ]
            &&& e.origin is Local && e.username.len() == 0 && e.instructions.len() == 0
        }),
{
}

/// A conversation begins with what came of trying without credentials, and holds
/// to the embedder's word on the password from the start.
pub proof fn a_conversation_begins_without_credentials(prefer: bool, then: LibsshEvent)
    ensures
        LibsshAuth::initial(prefer).prefer_password == prefer,
        !LibsshAuth::initial(prefer).password_offered,
        LibsshAuth::initial(prefer).expects(then) <==> then is Status || then is CallFailed,
        TERMOB_PREFER_PASSWORD_OPTION@ == "termob_prefer_password"@,
{
}

/// The statuses of authentication calls are called by their own names.
pub proof fn statuses_have_their_names()
    ensures
        AuthStatus::Success.label() == "Success"@,
        AuthStatus::Denied.label() == "Denied"@,
        AuthStatus::Partial.label() == "Partial"@,
        AuthStatus::Info.label() == "Info"@,
        AuthStatus::Again.label() == "Again"@,
{
}

} // verus!
